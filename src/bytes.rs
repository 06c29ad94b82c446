//! Little-endian reading and writing on an in-memory byte buffer.
use vstd::prelude::*;

verus! {

/// The little-endian `u16` stored at `p`.
pub open spec fn u16_at(b: Seq<u8>, p: int) -> u16 {
    (b[p] as int + b[p + 1] as int * 256) as u16
}

/// The little-endian `u32` stored at `p`.
pub open spec fn u32_at(b: Seq<u8>, p: int) -> u32 {
    (b[p] as int + b[p + 1] as int * 0x100 + b[p + 2] as int * 0x10000 + b[p + 3] as int
        * 0x1000000) as u32
}

/// The little-endian `u64` stored at `p`.
pub open spec fn u64_at(b: Seq<u8>, p: int) -> u64 {
    (u32_at(b, p) as int + u32_at(b, p + 4) as int * 0x1_0000_0000) as u64
}

/// The two bytes of `v`, least significant first.
pub open spec fn u16_bytes(v: u16) -> Seq<u8> {
    seq![(v % 256) as u8, (v / 256) as u8]
}

/// The four bytes of `v`, least significant first.
pub open spec fn u32_bytes(v: u32) -> Seq<u8> {
    seq![(v % 0x100) as u8, (v / 0x100 % 0x100) as u8, (v / 0x10000 % 0x100) as u8, (v / 0x1000000) as u8]
}

/// `n` zero bytes.
pub open spec fn zeros(n: nat) -> Seq<u8> {
    Seq::new(n, |i: int| 0u8)
}

/// Number of zero bytes that bring `len` up to a multiple of `num`.
pub open spec fn pad_len(len: int, num: int) -> int {
    (num - len % num) % num
}

pub proof fn lemma_pad_len(len: int, num: int)
    requires
        0 <= len,
        num > 0,
    ensures
        0 <= pad_len(len, num) < num,
        (len + pad_len(len, num)) % num == 0,
{
    let r = len % num;
    assert(0 <= r < num);
    assert(len == num * (len / num) + r) by (nonlinear_arith)
        requires num > 0, r == len % num;
    if r == 0 {
        assert(num % num == 0) by (nonlinear_arith)
            requires num > 0;
        assert(pad_len(len, num) == 0);
    } else {
        let d = num - r;
        assert(d % num == d) by (nonlinear_arith)
            requires 0 < d < num;
        assert(pad_len(len, num) == num - r);
        assert(len + num - r == num * (len / num + 1)) by (nonlinear_arith)
            requires len == num * (len / num) + r;
        assert((num * (len / num + 1)) % num == 0) by (nonlinear_arith)
            requires num > 0;
    }
}

/// `b` is at least as long as `a` and holds the same bytes from `lo` to the end of `a`.
pub open spec fn agree_from(b: Seq<u8>, a: Seq<u8>, lo: int) -> bool {
    a.len() <= b.len() && forall|k: int| lo <= k < a.len() ==> #[trigger] b[k] == a[k]
}

/// `b` starts with `a`.
pub open spec fn extends(b: Seq<u8>, a: Seq<u8>) -> bool {
    agree_from(b, a, 0)
}

pub proof fn lemma_extends_trans(a: Seq<u8>, b: Seq<u8>, c: Seq<u8>)
    requires
        extends(b, a),
        extends(c, b),
    ensures
        extends(c, a),
{
    assert forall|k: int| 0 <= k < a.len() implies #[trigger] c[k] == a[k] by {
        assert(c[k] == b[k]);
    }
}

pub proof fn lemma_extends_append(a: Seq<u8>, s: Seq<u8>)
    ensures
        extends(a + s, a),
{
    assert forall|k: int| 0 <= k < a.len() implies #[trigger] (a + s)[k] == a[k] by {}
}

/// Whether `n` bytes starting at `p` lie inside a buffer of length `len`.
pub open spec fn fits(len: int, p: int, n: int) -> bool {
    0 <= p && 0 <= n && p + n <= len
}

/// Reads the little-endian `u8` at `p`.
pub fn read_u8(b: &Vec<u8>, p: usize) -> (r: u8)
    requires
        p < b@.len(),
    ensures
        r == b@[p as int],
{
    b[p]
}

/// Reads the little-endian `u16` at `p`.
pub fn read_u16(b: &Vec<u8>, p: usize) -> (r: u16)
    requires
        p + 2 <= b@.len(),
    ensures
        r == u16_at(b@, p as int),
{
    let n: usize = b.len();
    assert(p + 1 < n);
    b[p] as u16 + b[p + 1] as u16 * 256
}

/// Reads the little-endian `u32` at `p`.
pub fn read_u32(b: &Vec<u8>, p: usize) -> (r: u32)
    requires
        p + 4 <= b@.len(),
    ensures
        r == u32_at(b@, p as int),
{
    let n: usize = b.len();
    assert(p + 3 < n);
    b[p] as u32 + b[p + 1] as u32 * 0x100 + b[p + 2] as u32 * 0x10000 + b[p + 3] as u32 * 0x1000000
}

/// Reads the little-endian `u64` at `p`.
pub fn read_u64(b: &Vec<u8>, p: usize) -> (r: u64)
    requires
        p + 8 <= b@.len(),
    ensures
        r == u64_at(b@, p as int),
{
    let n: usize = b.len();
    assert(p + 7 < n);
    read_u32(b, p) as u64 + read_u32(b, p + 4) as u64 * 0x1_0000_0000
}

/// Appends `v` in little-endian order.
pub fn push_u16(buf: &mut Vec<u8>, v: u16)
    ensures
        final(buf)@ == old(buf)@ + u16_bytes(v),
{
    buf.push((v % 256) as u8);
    buf.push((v / 256) as u8);
    assert(final(buf)@ =~= old(buf)@ + u16_bytes(v));
}

/// Appends `v` in little-endian order.
pub fn push_u32(buf: &mut Vec<u8>, v: u32)
    ensures
        final(buf)@ == old(buf)@ + u32_bytes(v),
{
    buf.push((v % 0x100) as u8);
    buf.push((v / 0x100 % 0x100) as u8);
    buf.push((v / 0x10000 % 0x100) as u8);
    buf.push((v / 0x1000000) as u8);
    assert(final(buf)@ =~= old(buf)@ + u32_bytes(v));
}

/// Appends zero bytes until the length of `buf` is a multiple of `num`.
pub fn align_writer(buf: &mut Vec<u8>, num: usize)
    requires
        num > 0,
    ensures
        final(buf)@ == old(buf)@ + zeros(pad_len(old(buf)@.len() as int, num as int) as nat),
        final(buf)@.len() as int % num as int == 0,
{
    let padding: usize = (num - buf.len() % num) % num;
    proof { lemma_pad_len(buf@.len() as int, num as int); }
    let ghost start = buf@;
    let mut i: usize = 0;
    while i < padding
        invariant
            i <= padding,
            padding == pad_len(start.len() as int, num as int),
            buf@ == start + zeros(i as nat),
        decreases padding - i,
    {
        buf.push(0u8);
        i = i + 1;
        assert(buf@ =~= start + zeros(i as nat));
    }
    proof { lemma_pad_len(start.len() as int, num as int); }
}

} // verus!

verus! {

/// Fails with a structural error at `p` unless `n` bytes starting at `p` lie inside `b`.
pub fn check_fits(b: &Vec<u8>, p: usize, n: u64) -> (r: Result<(), crate::error::GeometryError>)
    ensures
        b@.len() <= usize::MAX,
        r is Ok <==> fits(b@.len() as int, p as int, n as int),
        r is Err ==> r == Err::<(), crate::error::GeometryError>(
            crate::error::GeometryError::Malformed(p as u64),
        ),
{
    let len: usize = b.len();
    if (p as u64) <= (len as u64) && n <= (len as u64) - (p as u64) {
        Ok(())
    } else {
        Err(crate::error::GeometryError::Malformed(p as u64))
    }
}

} // verus!

verus! {

broadcast use vstd::std_specs::vec::axiom_spec_len;

/// Appends a byte and states where it can be read back.
pub fn write_u8(buf: &mut Vec<u8>, v: u8)
    ensures
        extends(final(buf)@, old(buf)@),
        final(buf)@.len() == old(buf)@.len() + 1,
        final(buf)@[old(buf)@.len() as int] == v,
{
    let ghost start = buf@;
    buf.push(v);
    proof {
        lemma_extends_append(start, seq![v]);
        assert(buf@ =~= start + seq![v]);
    }
}

/// Appends a `u16` and states where it can be read back.
pub fn write_u16(buf: &mut Vec<u8>, v: u16)
    ensures
        extends(final(buf)@, old(buf)@),
        final(buf)@.len() == old(buf)@.len() + 2,
        u16_at(final(buf)@, old(buf)@.len() as int) == v,
{
    let ghost start = buf@;
    push_u16(buf, v);
    proof {
        lemma_extends_append(start, u16_bytes(v));
        assert(buf@[start.len() as int] == u16_bytes(v)[0]);
        assert(buf@[start.len() as int + 1] == u16_bytes(v)[1]);
    }
}

/// Appends a `u32` and states where it can be read back.
pub fn write_u32(buf: &mut Vec<u8>, v: u32)
    ensures
        extends(final(buf)@, old(buf)@),
        final(buf)@.len() == old(buf)@.len() + 4,
        u32_at(final(buf)@, old(buf)@.len() as int) == v,
{
    let ghost start = buf@;
    push_u32(buf, v);
    proof {
        lemma_extends_append(start, u32_bytes(v));
        let l = start.len() as int;
        assert(buf@[l] == u32_bytes(v)[0]);
        assert(buf@[l + 1] == u32_bytes(v)[1]);
        assert(buf@[l + 2] == u32_bytes(v)[2]);
        assert(buf@[l + 3] == u32_bytes(v)[3]);
        lemma_u32_bytes_value(v);
    }
}

proof fn lemma_u32_bytes_value(v: u32)
    ensures
        u32_bytes(v)[0] as int + u32_bytes(v)[1] as int * 0x100 + u32_bytes(v)[2] as int * 0x10000
            + u32_bytes(v)[3] as int * 0x1000000 == v,
{
    let x = v as int;
    let a = x / 0x100;
    let c = x / 0x10000;
    let d = x / 0x1000000;
    assert(x == a * 0x100 + x % 0x100);
    assert(a == c * 0x100 + a % 0x100);
    assert(c == d * 0x100 + c % 0x100);
    assert(c == x / 0x100 / 0x100) by {
        vstd::arithmetic::div_mod::lemma_div_denominator(x, 0x100, 0x100);
    }
    assert(d == c / 0x100) by {
        vstd::arithmetic::div_mod::lemma_div_denominator(x, 0x10000, 0x100);
    }
    assert(d < 0x100);
}

/// Appends a `u64` and states where it can be read back.
pub fn write_u64(buf: &mut Vec<u8>, v: u64)
    ensures
        extends(final(buf)@, old(buf)@),
        final(buf)@.len() == old(buf)@.len() + 8,
        u64_at(final(buf)@, old(buf)@.len() as int) == v,
{
    let ghost start = buf@;
    write_u32(buf, (v % 0x1_0000_0000) as u32);
    let ghost mid = buf@;
    write_u32(buf, (v / 0x1_0000_0000) as u32);
    proof {
        lemma_extends_trans(start, mid, buf@);
    }
}

/// Appends every byte of `data`.
pub fn write_bytes(buf: &mut Vec<u8>, data: &Vec<u8>)
    ensures
        extends(final(buf)@, old(buf)@),
        final(buf)@ == old(buf)@ + data@,
{
    let ghost start = buf@;
    let mut i: usize = 0;
    while i < data.len()
        invariant
            i <= data@.len(),
            buf@ == start + data@.subrange(0, i as int),
        decreases data@.len() - i,
    {
        buf.push(data[i]);
        i = i + 1;
        assert(buf@ =~= start + data@.subrange(0, i as int));
    }
    assert(data@.subrange(0, i as int) =~= data@);
    proof {
        lemma_extends_append(start, data@);
    }
}

/// Copies the `n` bytes starting at `p`.
pub fn read_bytes(b: &Vec<u8>, p: usize, n: usize) -> (r: Vec<u8>)
    requires
        p + n <= b.len(),
    ensures
        r@ == b@.subrange(p as int, p + n),
{
    let mut r: Vec<u8> = Vec::new();
    let mut i: usize = 0;
    while i < n
        invariant
            i <= n,
            p + n <= b.len(),
            r@ == b@.subrange(p as int, p + i),
        decreases n - i,
    {
        r.push(b[p + i]);
        i = i + 1;
        assert(r@ =~= b@.subrange(p as int, p + i));
    }
    r
}

/// A stretch of bytes read inside `a` from `lo` on reads the same in `b`.
pub proof fn lemma_subrange_stable(a: Seq<u8>, b: Seq<u8>, lo: int, p: int, q: int)
    requires
        agree_from(b, a, lo),
        0 <= lo <= p <= q <= a.len(),
    ensures
        b.subrange(p, q) == a.subrange(p, q),
{
    assert(b.subrange(p, q) =~= a.subrange(p, q)) by {
        assert forall|k: int| 0 <= k < q - p implies b.subrange(p, q)[k] == a.subrange(p, q)[k] by {
            assert(b[p + k] == a[p + k]);
        }
    }
}

} // verus!

verus! {

/// Decodes `n` consecutive little-endian `u16` values starting at `p`.
pub open spec fn u16s_at(b: Seq<u8>, p: int, n: nat) -> Seq<u16> {
    Seq::new(n, |i: int| u16_at(b, p + 2 * i))
}

/// Reads `n` little-endian `u16` values starting at `p`.
pub fn read_u16s(b: &Vec<u8>, p: usize, n: usize) -> (r: Vec<u16>)
    requires
        p + 2 * n <= b.len(),
    ensures
        r@ == u16s_at(b@, p as int, n as nat),
{
    let mut r: Vec<u16> = Vec::new();
    let mut i: usize = 0;
    while i < n
        invariant
            i <= n,
            p + 2 * n <= b.len(),
            r@ == u16s_at(b@, p as int, i as nat),
        decreases n - i,
    {
        r.push(read_u16(b, p + 2 * i));
        i = i + 1;
        assert(r@ =~= u16s_at(b@, p as int, i as nat));
    }
    r
}

/// Appends the values of `v` in little-endian order.
pub fn write_u16s(buf: &mut Vec<u8>, v: &Vec<u16>)
    ensures
        extends(final(buf)@, old(buf)@),
        final(buf)@.len() == old(buf)@.len() + 2 * v@.len(),
        u16s_at(final(buf)@, old(buf)@.len() as int, v@.len()) == v@,
{
    let ghost start = buf@;
    let mut i: usize = 0;
    while i < v.len()
        invariant
            i <= v@.len(),
            extends(buf@, start),
            buf@.len() == start.len() + 2 * i,
            forall|k: int| 0 <= k < i ==> u16_at(buf@, start.len() + 2 * k) == #[trigger] v@[k],
        decreases v@.len() - i,
    {
        let ghost before = buf@;
        write_u16(buf, v[i]);
        proof {
            lemma_extends_trans(start, before, buf@);
        }
        i = i + 1;
    }
    assert(u16s_at(buf@, start.len() as int, v@.len()) =~= v@);
}

/// A run of `u16` values read inside `a` from `lo` on reads the same in `b`.
pub proof fn lemma_u16s_stable(a: Seq<u8>, b: Seq<u8>, lo: int, p: int, n: nat)
    requires
        agree_from(b, a, lo),
        0 <= lo <= p,
        p + 2 * n <= a.len(),
    ensures
        u16s_at(b, p, n) == u16s_at(a, p, n),
{
    assert(u16s_at(b, p, n) =~= u16s_at(a, p, n));
}

/// Decodes `n` consecutive little-endian `u32` values starting at `p`.
pub open spec fn u32s_at(b: Seq<u8>, p: int, n: nat) -> Seq<u32> {
    Seq::new(n, |i: int| u32_at(b, p + 4 * i))
}

/// Reads `n` little-endian `u32` values starting at `p`.
pub fn read_u32s(b: &Vec<u8>, p: usize, n: usize) -> (r: Vec<u32>)
    requires
        p + 4 * n <= b.len(),
    ensures
        r@ == u32s_at(b@, p as int, n as nat),
{
    let mut r: Vec<u32> = Vec::new();
    let mut i: usize = 0;
    while i < n
        invariant
            i <= n,
            p + 4 * n <= b.len(),
            r@ == u32s_at(b@, p as int, i as nat),
        decreases n - i,
    {
        r.push(read_u32(b, p + 4 * i));
        i = i + 1;
        assert(r@ =~= u32s_at(b@, p as int, i as nat));
    }
    r
}

/// Appends the values of `v` in little-endian order.
pub fn write_u32s(buf: &mut Vec<u8>, v: &Vec<u32>)
    ensures
        extends(final(buf)@, old(buf)@),
        final(buf)@.len() == old(buf)@.len() + 4 * v@.len(),
        u32s_at(final(buf)@, old(buf)@.len() as int, v@.len()) == v@,
{
    let ghost start = buf@;
    let mut i: usize = 0;
    while i < v.len()
        invariant
            i <= v@.len(),
            extends(buf@, start),
            buf@.len() == start.len() + 4 * i,
            forall|k: int| 0 <= k < i ==> u32_at(buf@, start.len() + 4 * k) == #[trigger] v@[k],
        decreases v@.len() - i,
    {
        let ghost before = buf@;
        write_u32(buf, v[i]);
        proof {
            lemma_extends_trans(start, before, buf@);
        }
        i = i + 1;
    }
    assert(u32s_at(buf@, start.len() as int, v@.len()) =~= v@);
}

/// A run of `u32` values read inside `a` from `lo` on reads the same in `b`.
pub proof fn lemma_u32s_stable(a: Seq<u8>, b: Seq<u8>, lo: int, p: int, n: nat)
    requires
        agree_from(b, a, lo),
        0 <= lo <= p,
        p + 4 * n <= a.len(),
    ensures
        u32s_at(b, p, n) == u32s_at(a, p, n),
{
    assert(u32s_at(b, p, n) =~= u32s_at(a, p, n));
}

/// Decodes `n` consecutive little-endian `u64` values starting at `p`.
pub open spec fn u64s_at(b: Seq<u8>, p: int, n: nat) -> Seq<u64> {
    Seq::new(n, |i: int| u64_at(b, p + 8 * i))
}

/// Reads `n` little-endian `u64` values starting at `p`.
pub fn read_u64s(b: &Vec<u8>, p: usize, n: usize) -> (r: Vec<u64>)
    requires
        p + 8 * n <= b.len(),
    ensures
        r@ == u64s_at(b@, p as int, n as nat),
{
    let mut r: Vec<u64> = Vec::new();
    let mut i: usize = 0;
    while i < n
        invariant
            i <= n,
            p + 8 * n <= b.len(),
            r@ == u64s_at(b@, p as int, i as nat),
        decreases n - i,
    {
        r.push(read_u64(b, p + 8 * i));
        i = i + 1;
        assert(r@ =~= u64s_at(b@, p as int, i as nat));
    }
    r
}

/// Appends the values of `v` in little-endian order.
pub fn write_u64s(buf: &mut Vec<u8>, v: &Vec<u64>)
    ensures
        extends(final(buf)@, old(buf)@),
        final(buf)@.len() == old(buf)@.len() + 8 * v@.len(),
        u64s_at(final(buf)@, old(buf)@.len() as int, v@.len()) == v@,
{
    let ghost start = buf@;
    let mut i: usize = 0;
    while i < v.len()
        invariant
            i <= v@.len(),
            extends(buf@, start),
            buf@.len() == start.len() + 8 * i,
            forall|k: int| 0 <= k < i ==> u64_at(buf@, start.len() + 8 * k) == #[trigger] v@[k],
        decreases v@.len() - i,
    {
        let ghost before = buf@;
        write_u64(buf, v[i]);
        proof {
            lemma_extends_trans(start, before, buf@);
        }
        i = i + 1;
    }
    assert(u64s_at(buf@, start.len() as int, v@.len()) =~= v@);
}

/// A run of `u64` values read inside `a` from `lo` on reads the same in `b`.
pub proof fn lemma_u64s_stable(a: Seq<u8>, b: Seq<u8>, lo: int, p: int, n: nat)
    requires
        agree_from(b, a, lo),
        0 <= lo <= p,
        p + 8 * n <= a.len(),
    ensures
        u64s_at(b, p, n) == u64s_at(a, p, n),
{
    assert(u64s_at(b, p, n) =~= u64s_at(a, p, n));
}

} // verus!

verus! {

/// The current length of `buf` as a 32-bit offset; too large a buffer cannot be addressed.
pub fn stream_position(buf: &Vec<u8>) -> (r: Result<u32, crate::error::GeometryError>)
    ensures
        r is Ok ==> r->Ok_0 == buf@.len(),
        r is Ok <==> buf@.len() <= u32::MAX,
        r is Err ==> r == Err::<u32, crate::error::GeometryError>(
            crate::error::GeometryError::TooLarge,
        ),
{
    if buf.len() as u64 <= 0xFFFF_FFFF {
        Ok(buf.len() as u32)
    } else {
        Err(crate::error::GeometryError::TooLarge)
    }
}

/// Appends zero bytes up to a multiple of sixteen, stating what that keeps.
pub fn align16(buf: &mut Vec<u8>)
    ensures
        extends(final(buf)@, old(buf)@),
        final(buf)@.len() % 16 == 0,
        final(buf)@.len() >= old(buf)@.len(),
        final(buf)@.len() < old(buf)@.len() + 16,
        final(buf)@.len() == old(buf)@.len() + pad_len(old(buf)@.len() as int, 16),
        old(buf)@.len() % 16 == 0 ==> final(buf)@ == old(buf)@,
{
    let ghost start = buf@;
    align_writer(buf, 16);
    proof {
        lemma_extends_append(start, zeros(pad_len(start.len() as int, 16) as nat));
        if start.len() % 16 == 0 {
            assert(pad_len(start.len() as int, 16) == 0);
            assert(buf@ =~= start);
        }
    }
}

/// Overwrites the eight bytes at `p` with `v` in little-endian order.
pub fn patch_u64(buf: &mut Vec<u8>, p: usize, v: u64)
    requires
        p + 8 <= old(buf)@.len(),
    ensures
        final(buf)@.len() == old(buf)@.len(),
        u64_at(final(buf)@, p as int) == v,
        agree_from(final(buf)@, old(buf)@, p + 8),
        forall|k: int| 0 <= k < p ==> #[trigger] final(buf)@[k] == old(buf)@[k],
{
    let mut tmp: Vec<u8> = Vec::new();
    write_u64(&mut tmp, v);
    let ghost start = buf@;
    let mut i: usize = 0;
    while i < 8
        invariant
            i <= 8,
            p + 8 <= buf.len(),
            tmp@.len() == 8,
            u64_at(tmp@, 0) == v,
            buf@.len() == start.len(),
            forall|k: int| 0 <= k < i ==> buf@[p + k] == tmp@[k],
            forall|k: int| 0 <= k < buf@.len() && !(p <= k < p + i) ==> #[trigger] buf@[k] == start[k],
        decreases 8 - i,
    {
        buf.set(p + i, tmp[i]);
        i = i + 1;
    }
    assert forall|k: int| 0 <= k < 8 implies buf@[p + k] == tmp@[k] by {}
}

} // verus!

verus! {

/// `k` rounded up to a multiple of sixteen.
pub open spec fn pad16(k: int) -> int {
    k + pad_len(k, 16)
}

/// Padding to sixteen after `k` bytes written from a sixteen-byte boundary `s`
/// ends at `s + pad16(k)`.
pub proof fn lemma_pad16_from(s: int, k: int)
    requires
        0 <= s,
        0 <= k,
        s % 16 == 0,
    ensures
        s + k + pad_len(s + k, 16) == s + pad16(k),
        k <= pad16(k),
        pad16(k) % 16 == 0,
{
    lemma_pad_len(k, 16);
    lemma_pad_len(s + k, 16);
    assert((s + k) % 16 == k % 16) by (nonlinear_arith)
        requires s % 16 == 0, 0 <= s, 0 <= k;
}

} // verus!
