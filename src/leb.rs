//! Unsigned LEB128 numbers, as used for string lengths on the wire.
use vstd::prelude::*;
use crate::codec::{leb, leb_end, leb_value, spec_leb, DecodeError};

verus! {

/// Appends the LEB128 bytes of `value`.
pub fn encode(buf: &mut Vec<u8>, value: u32)
    ensures
        final(buf)@ == old(buf)@ + leb(value as nat),
    decreases value,
{
    if value < 128 {
        buf.push(value as u8);
        assert(old(buf)@ + leb(value as nat) =~= old(buf)@.push(value as u8));
    } else {
        buf.push((value % 128 + 128) as u8);
        encode(buf, value / 128);
        assert(old(buf)@ + leb(value as nat) =~= old(buf)@ + seq![(value % 128 + 128) as u8] + leb(
            (value / 128) as nat,
        ));
    }
}

proof fn lemma_leb_end_skip(b: Seq<u8>, i: nat)
    requires
        i <= b.len(),
        forall|j: int| 0 <= j < i ==> b[j] >= 128,
    ensures
        leb_end(b) == match leb_end(b.skip(i as int)) {
            Some(k) => Some(k + i),
            None => None::<nat>,
        },
    decreases i,
{
    if i > 0 {
        lemma_leb_end_skip(b.drop_first(), (i - 1) as nat);
        assert(b.drop_first().skip(i - 1) =~= b.skip(i as int));
    } else {
        assert(b.skip(0) =~= b);
    }
}

proof fn lemma_leb_value_step(b: Seq<u8>, j: int, k: int)
    requires
        0 <= j < k <= b.len(),
    ensures
        leb_value(b.subrange(j, k)) == (b[j] % 128) as nat + 128 * leb_value(b.subrange(j + 1, k)),
{
    assert(b.subrange(j, k).drop_first() =~= b.subrange(j + 1, k));
}

proof fn lemma_leb_value_mono(b: Seq<u8>, i: int, j: int, k: int)
    requires
        0 <= i <= j <= k <= b.len(),
    ensures
        leb_value(b.subrange(i, k)) >= leb_value(b.subrange(j, k)),
    decreases j - i,
{
    if i < j {
        lemma_leb_value_mono(b, i + 1, j, k);
        lemma_leb_value_step(b, i, k);
    }
}

/// Reads a LEB128 number from the front of `buf`; returns it and its length.
/// At most five bytes are read, and the value must fit in 32 bits.
pub fn decode(buf: &[u8]) -> (r: Result<(u32, usize), DecodeError>)
    ensures
        match spec_leb(buf@) {
            Some((v, k)) => r == Ok::<(u32, usize), DecodeError>((v, k as usize)),
            None => r == Err::<(u32, usize), DecodeError>(DecodeError::BadLength),
        },
        r matches Ok((_, k)) ==> 1 <= k <= buf@.len() && k <= 5,
{
    let n = buf.len();
    let mut i: usize = 0;
    while i < n && i < 5 && buf[i] >= 128
        invariant
            i <= n,
            n == buf@.len(),
            i <= 5,
            forall|j: int| 0 <= j < i ==> buf@[j] >= 128,
        decreases 5 - i,
    {
        i += 1;
    }
    proof {
        lemma_leb_end_skip(buf@, i as nat);
    }
    if i == n {
        assert(buf@.skip(i as int).len() == 0);
        return Err(DecodeError::BadLength);
    }
    if i == 5 {
        return Err(DecodeError::BadLength);
    }
    let k = i + 1;
    assert(leb_end(buf@) == Some(k as nat)) by {
        let t = buf@.skip(i as int);
        assert(t[0] == buf@[i as int]);
    }
    let mut acc: u64 = 0;
    let mut j: usize = k;
    while j > 0
        invariant
            j <= k,
            k <= n,
            k <= 5,
            n == buf@.len(),
            acc as nat == leb_value(buf@.subrange(j as int, k as int)),
            acc <= u32::MAX,
            leb_end(buf@) == Some(k as nat),
        decreases j,
    {
        j -= 1;
        proof {
            lemma_leb_value_step(buf@, j as int, k as int);
        }
        let next = acc * 128 + (buf[j] % 128) as u64;
        assert(next as nat == leb_value(buf@.subrange(j as int, k as int)));
        if next > u32::MAX as u64 {
            proof {
                lemma_leb_value_mono(buf@, 0, j as int, k as int);
                assert(buf@.take(k as int) =~= buf@.subrange(0, k as int));
            }
            return Err(DecodeError::BadLength);
        }
        acc = next;
    }
    assert(buf@.take(k as int) =~= buf@.subrange(0, k as int));
    Ok((acc as u32, k))
}

} // verus!
