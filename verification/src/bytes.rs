use vstd::prelude::*;

verus! {

/// A sequence of `n` zero bytes.
pub open spec fn zeros(n: nat) -> Seq<u8> {
    Seq::new(n, |i: int| 0u8)
}

/// Little-endian byte `i` of `x`.
pub open spec fn le_byte(x: u64, i: int) -> u8 {
    (x >> ((8 * i) as u64)) as u8
}

/// The eight little-endian bytes of `x`.
pub open spec fn le_bytes(x: u64) -> Seq<u8> {
    Seq::new(8, |i: int| le_byte(x, i))
}

/// The `u64` read back from eight little-endian bytes.
pub open spec fn u64_from_le(s: Seq<u8>) -> u64 {
    ((s[0] as u64) | ((s[1] as u64) << 8u64) | ((s[2] as u64) << 16u64)
        | ((s[3] as u64) << 24u64) | ((s[4] as u64) << 32u64) | ((s[5] as u64) << 40u64)
        | ((s[6] as u64) << 48u64) | ((s[7] as u64) << 56u64)) as u64
}

/// Reading the little-endian bytes of `x` yields `x` again.
pub proof fn lemma_u64_le_round_trip(x: u64)
    ensures
        u64_from_le(le_bytes(x)) == x,
{
    let s = le_bytes(x);
    assert(s[0] == (x >> 0u64) as u8);
    assert(s[1] == (x >> 8u64) as u8);
    assert(s[2] == (x >> 16u64) as u8);
    assert(s[3] == (x >> 24u64) as u8);
    assert(s[4] == (x >> 32u64) as u8);
    assert(s[5] == (x >> 40u64) as u8);
    assert(s[6] == (x >> 48u64) as u8);
    assert(s[7] == (x >> 56u64) as u8);
    assert(((((x >> 0u64) as u8) as u64) | ((((x >> 8u64) as u8) as u64) << 8u64)
        | ((((x >> 16u64) as u8) as u64) << 16u64) | ((((x >> 24u64) as u8) as u64) << 24u64)
        | ((((x >> 32u64) as u8) as u64) << 32u64) | ((((x >> 40u64) as u8) as u64) << 40u64)
        | ((((x >> 48u64) as u8) as u64) << 48u64) | ((((x >> 56u64) as u8) as u64) << 56u64))
        == x) by (bit_vector);
}

/// Writing back the `u64` read from eight bytes yields those bytes again.
pub proof fn lemma_le_bytes_of_u64_from_le(s: Seq<u8>)
    requires
        s.len() == 8,
    ensures
        le_bytes(u64_from_le(s)) == s,
{
    let b0 = s[0];
    let b1 = s[1];
    let b2 = s[2];
    let b3 = s[3];
    let b4 = s[4];
    let b5 = s[5];
    let b6 = s[6];
    let b7 = s[7];
    let x = u64_from_le(s);
    assert(x == ((b0 as u64) | ((b1 as u64) << 8u64) | ((b2 as u64) << 16u64)
        | ((b3 as u64) << 24u64) | ((b4 as u64) << 32u64) | ((b5 as u64) << 40u64)
        | ((b6 as u64) << 48u64) | ((b7 as u64) << 56u64)) as u64);
    let y: u64 = ((b0 as u64) | ((b1 as u64) << 8u64) | ((b2 as u64) << 16u64)
        | ((b3 as u64) << 24u64) | ((b4 as u64) << 32u64) | ((b5 as u64) << 40u64)
        | ((b6 as u64) << 48u64) | ((b7 as u64) << 56u64)) as u64;
    assert((y >> 0u64) as u8 == b0 && (y >> 8u64) as u8 == b1 && (y >> 16u64) as u8 == b2 && (y
        >> 24u64) as u8 == b3 && (y >> 32u64) as u8 == b4 && (y >> 40u64) as u8 == b5 && (y
        >> 48u64) as u8 == b6 && (y >> 56u64) as u8 == b7) by (bit_vector)
        requires
            y == ((b0 as u64) | ((b1 as u64) << 8u64) | ((b2 as u64) << 16u64)
                | ((b3 as u64) << 24u64) | ((b4 as u64) << 32u64) | ((b5 as u64) << 40u64)
                | ((b6 as u64) << 48u64) | ((b7 as u64) << 56u64)) as u64,
    ;
    assert(le_bytes(x) =~= s);
}

/// Two `u64`s with the same little-endian bytes are the same value.
pub proof fn lemma_le_bytes_injective(x: u64, y: u64)
    requires
        le_bytes(x) == le_bytes(y),
    ensures
        x == y,
{
    lemma_u64_le_round_trip(x);
    lemma_u64_le_round_trip(y);
}

/// Build a vector of `n` zero bytes.
pub fn zero_bytes(n: usize) -> (r: Vec<u8>)
    ensures
        r@ == zeros(n as nat),
{
    let mut v: Vec<u8> = Vec::new();
    let mut i: usize = 0;
    while i < n
        invariant
            i <= n,
            v@ == zeros(i as nat),
        decreases n - i,
    {
        v.push(0u8);
        proof {
            assert(v@ =~= zeros((i + 1) as nat));
        }
        i = i + 1;
    }
    v
}

/// Copy a byte vector.
pub fn copy_bytes(src: &Vec<u8>) -> (r: Vec<u8>)
    ensures
        r@ == src@,
{
    let mut v: Vec<u8> = Vec::new();
    let mut i: usize = 0;
    while i < src.len()
        invariant
            i <= src@.len(),
            v@ == src@.subrange(0, i as int),
        decreases src@.len() - i,
    {
        v.push(src[i]);
        proof {
            assert(v@ =~= src@.subrange(0, (i + 1) as int));
        }
        i = i + 1;
    }
    proof {
        assert(src@.subrange(0, src@.len() as int) =~= src@);
    }
    v
}

/// Compare two byte vectors for equality of contents.
pub fn bytes_eq(a: &Vec<u8>, b: &Vec<u8>) -> (r: bool)
    ensures
        r == (a@ == b@),
{
    if a.len() != b.len() {
        return false;
    }
    let mut i: usize = 0;
    while i < a.len()
        invariant
            i <= a@.len(),
            a@.len() == b@.len(),
            forall|j: int| 0 <= j < i ==> a@[j] == b@[j],
        decreases a@.len() - i,
    {
        if a[i] != b[i] {
            return false;
        }
        i = i + 1;
    }
    proof {
        assert(a@ =~= b@);
    }
    true
}

/// Append the little-endian bytes of `x` to `out`.
pub fn push_u64_le(out: &mut Vec<u8>, x: u64)
    ensures
        final(out)@ == old(out)@ + le_bytes(x),
{
    let ghost start = out@;
    let mut i: u64 = 0;
    while i < 8
        invariant
            i <= 8,
            out@.len() == start.len() + i,
            out@.subrange(0, start.len() as int) == start,
            forall|j: int| 0 <= j < i ==> out@[start.len() + j] == le_byte(x, j),
        decreases 8 - i,
    {
        let b: u8 = #[verifier::truncate] ((x >> (8 * i)) as u8);
        proof {
            assert(8 * i == (8 * (i as int)) as u64);
        }
        out.push(b);
        proof {
            assert(out@.subrange(0, start.len() as int) =~= start);
        }
        i = i + 1;
    }
    proof {
        assert(out@ =~= start + le_bytes(x));
    }
}

/// Append the contents of `src` to `out`.
pub fn push_bytes(out: &mut Vec<u8>, src: &Vec<u8>)
    ensures
        final(out)@ == old(out)@ + src@,
{
    let ghost start = out@;
    let mut i: usize = 0;
    while i < src.len()
        invariant
            i <= src@.len(),
            out@.len() == start.len() + i,
            out@.subrange(0, start.len() as int) == start,
            forall|j: int| 0 <= j < i ==> out@[start.len() + j] == src@[j],
        decreases src@.len() - i,
    {
        out.push(src[i]);
        proof {
            assert(out@.subrange(0, start.len() as int) =~= start);
        }
        i = i + 1;
    }
    proof {
        assert(out@ =~= start + src@);
    }
}

/// Read a `u64` from eight little-endian bytes of `s` starting at `pos`.
pub fn read_u64_le(s: &Vec<u8>, pos: usize) -> (r: u64)
    requires
        pos + 8 <= s@.len(),
    ensures
        r == u64_from_le(s@.subrange(pos as int, pos as int + 8)),
{
    let len = s.len();
    let r: u64 = (s[pos] as u64) | ((s[pos + 1] as u64) << 8u64) | ((s[pos + 2] as u64) << 16u64)
        | ((s[pos + 3] as u64) << 24u64) | ((s[pos + 4] as u64) << 32u64)
        | ((s[pos + 5] as u64) << 40u64) | ((s[pos + 6] as u64) << 48u64)
        | ((s[pos + 7] as u64) << 56u64);
    proof {
        let sub = s@.subrange(pos as int, pos as int + 8);
        assert(sub[0] == s@[pos as int]);
        assert(sub[1] == s@[pos as int + 1]);
        assert(sub[2] == s@[pos as int + 2]);
        assert(sub[3] == s@[pos as int + 3]);
        assert(sub[4] == s@[pos as int + 4]);
        assert(sub[5] == s@[pos as int + 5]);
        assert(sub[6] == s@[pos as int + 6]);
        assert(sub[7] == s@[pos as int + 7]);
    }
    r
}

/// Copy `n` bytes of `s` starting at `pos` into a fresh vector.
pub fn read_bytes(s: &Vec<u8>, pos: usize, n: usize) -> (r: Vec<u8>)
    requires
        pos + n <= s@.len(),
    ensures
        r@ == s@.subrange(pos as int, pos as int + n),
{
    let len = s.len();
    let mut v: Vec<u8> = Vec::new();
    let mut i: usize = 0;
    while i < n
        invariant
            i <= n,
            pos + n <= s@.len(),
            s@.len() == len,
            v@ == s@.subrange(pos as int, pos as int + i),
        decreases n - i,
    {
        v.push(s[pos + i]);
        proof {
            assert(v@ =~= s@.subrange(pos as int, pos as int + i + 1));
        }
        i = i + 1;
    }
    v
}

} // verus!
