//! Bit extractors that turn raw, possibly biased bytes into output bytes.
use crate::entropy::EntropyError;
use crate::entropy::EntropyResult;
use sha2::Digest;
use vstd::prelude::*;

verus! {

/// Bit `i` (0 = least significant) of `x`, as 0 or 1.
pub open spec fn bit_at(x: u8, i: u8) -> u8 {
    (x >> i) & 1u8
}

/// The bits that the von Neumann rule keeps from the first `k` bit positions
/// of the byte pair `(a, b)`: at each position where the two bits differ, the
/// bit of `a`.
pub open spec fn pair_bits(a: u8, b: u8, k: nat) -> Seq<u8>
    decreases k,
{
    if k == 0 {
        Seq::empty()
    } else {
        let prev = pair_bits(a, b, (k - 1) as nat);
        let i = (k - 1) as u8;
        if bit_at(a, i) != bit_at(b, i) {
            prev.push(bit_at(a, i))
        } else {
            prev
        }
    }
}

/// The bits kept from the first `n` byte pairs of `s`.
pub open spec fn vn_bits(s: Seq<u8>, n: nat) -> Seq<u8>
    decreases n,
{
    if n == 0 {
        Seq::empty()
    } else {
        vn_bits(s, (n - 1) as nat) + pair_bits(s[2 * (n - 1)], s[2 * (n - 1) + 1], 8)
    }
}

/// The byte whose bit `t` is `bits[t]` (at most eight bits, least significant first).
pub open spec fn pack_bits(bits: Seq<u8>) -> u8
    decreases bits.len(),
{
    if bits.len() == 0 {
        0u8
    } else {
        pack_bits(bits.drop_last()) | (bits.last() << ((bits.len() - 1) as u8))
    }
}

/// The complete bytes of a bit stream, eight bits each, least significant bit first.
pub open spec fn pack_bytes(bits: Seq<u8>) -> Seq<u8> {
    Seq::new(bits.len() / 8, |j: int| pack_bits(bits.subrange(8 * j, 8 * j + 8)))
}

/// Every byte that the von Neumann extractor can produce from `s`.
pub open spec fn von_neumann_stream(s: Seq<u8>) -> Seq<u8> {
    pack_bytes(vn_bits(s, s.len() / 2))
}

/// `s` whitened: every byte XORed with the byte before it (the first with 0).
pub open spec fn whitened(s: Seq<u8>) -> Seq<u8> {
    Seq::new(s.len(), |j: int| if j == 0 { s[0] } else { s[j] ^ s[j - 1] })
}

proof fn lemma_pair_bits_prefix(a: u8, b: u8, i: nat, k: nat)
    requires
        i <= k,
    ensures
        pair_bits(a, b, i).is_prefix_of(pair_bits(a, b, k)),
    decreases k,
{
    if i < k {
        lemma_pair_bits_prefix(a, b, i, (k - 1) as nat);
    }
}

proof fn lemma_vn_bits_prefix(s: Seq<u8>, c: nat, n: nat, extra: Seq<u8>)
    requires
        c < n,
        extra.is_prefix_of(pair_bits(s[2 * c as int], s[2 * c as int + 1], 8)),
    ensures
        (vn_bits(s, c) + extra).is_prefix_of(vn_bits(s, n)),
    decreases n,
{
    if c + 1 < n {
        lemma_vn_bits_prefix(s, c, (n - 1) as nat, extra);
        assert(vn_bits(s, (n - 1) as nat).is_prefix_of(vn_bits(s, n)));
    } else {
        let p = vn_bits(s, c) + extra;
        let full = vn_bits(s, n);
        assert(full == vn_bits(s, c) + pair_bits(s[2 * c as int], s[2 * c as int + 1], 8));
        assert forall|j: int| 0 <= j < p.len() implies p[j] == full[j] by {
            if j >= vn_bits(s, c).len() {
                assert(p[j] == extra[j - vn_bits(s, c).len()]);
            }
        }
    }
}

proof fn lemma_pack_bytes_prefix(bits: Seq<u8>, full: Seq<u8>)
    requires
        bits.is_prefix_of(full),
    ensures
        pack_bytes(bits) == pack_bytes(full).take((bits.len() / 8) as int),
{
    assert forall|j: int| 0 <= j < bits.len() / 8 implies #[trigger] bits.subrange(8 * j, 8 * j + 8)
        == full.subrange(8 * j, 8 * j + 8) by {
        assert(bits.subrange(8 * j, 8 * j + 8) =~= full.subrange(8 * j, 8 * j + 8));
    }
    assert(pack_bytes(bits) =~= pack_bytes(full).take((bits.len() / 8) as int));
}

proof fn lemma_pack_bytes_push(bits: Seq<u8>, x: u8)
    requires
        bits.len() % 8 == 7,
    ensures
        pack_bytes(bits.push(x)) == pack_bytes(bits).push(
            pack_bits(bits.subrange(bits.len() - 7, bits.len() as int).push(x)),
        ),
{
    let nb = bits.push(x);
    assert(nb.subrange(nb.len() - 8, nb.len() as int) =~= bits.subrange(
        bits.len() - 7,
        bits.len() as int,
    ).push(x));
    assert forall|j: int| 0 <= j < bits.len() / 8 implies #[trigger] nb.subrange(8 * j, 8 * j + 8)
        == bits.subrange(8 * j, 8 * j + 8) by {
        assert(nb.subrange(8 * j, 8 * j + 8) =~= bits.subrange(8 * j, 8 * j + 8));
    }
    assert(pack_bytes(nb) =~= pack_bytes(bits).push(
        pack_bits(bits.subrange(bits.len() - 7, bits.len() as int).push(x)),
    ));
}

proof fn lemma_pack_bytes_push_partial(bits: Seq<u8>, x: u8)
    requires
        bits.len() % 8 != 7,
    ensures
        pack_bytes(bits.push(x)) == pack_bytes(bits),
{
    let nb = bits.push(x);
    assert forall|j: int| 0 <= j < bits.len() / 8 implies #[trigger] nb.subrange(8 * j, 8 * j + 8)
        == bits.subrange(8 * j, 8 * j + 8) by {
        assert(nb.subrange(8 * j, 8 * j + 8) =~= bits.subrange(8 * j, 8 * j + 8));
    }
    assert(pack_bytes(nb) =~= pack_bytes(bits));
}


/// SHA-256 digest of `data`.
pub uninterp spec fn sha256_of(data: Seq<u8>) -> Seq<u8>;

/// The `k`-th block of the hash chain seeded by `data`: the digest of `data`,
/// then the digest of the block before.
pub open spec fn hash_block(data: Seq<u8>, k: nat) -> Seq<u8>
    decreases k,
{
    if k == 0 {
        sha256_of(data)
    } else {
        sha256_of(hash_block(data, (k - 1) as nat))
    }
}

/// The first `n` blocks of the hash chain seeded by `data`, concatenated.
pub open spec fn hash_chain(data: Seq<u8>, n: nat) -> Seq<u8>
    decreases n,
{
    if n == 0 {
        Seq::empty()
    } else {
        hash_chain(data, (n - 1) as nat) + hash_block(data, (n - 1) as nat)
    }
}

/// How many 32-byte blocks cover `n` bytes (at least one).
pub open spec fn blocks_for(n: nat) -> nat {
    if n <= 32 {
        1
    } else {
        ((n + 31) / 32) as nat
    }
}

/// The eight bytes of `x`, least significant first.
pub open spec fn le_bytes(x: u64) -> Seq<u8> {
    Seq::new(8, |i: int| ((x >> (8 * i) as u64) & 0xffu64) as u8)
}

/// The eight bytes of `x`, most significant first.
pub open spec fn be_bytes(x: u64) -> Seq<u8> {
    Seq::new(8, |i: int| ((x >> (8 * (7 - i)) as u64) & 0xffu64) as u8)
}

/// The four bytes of `x`, least significant first.
pub open spec fn le_bytes32(x: u32) -> Seq<u8> {
    Seq::new(4, |i: int| ((x >> (8 * i) as u32) & 0xffu32) as u8)
}

/// What the hashing extractor returns for `input` when the clock stood at
/// `stamp` nanoseconds: the hash chain seeded by the input and the stamp, cut
/// to `output_size` bytes.
pub open spec fn hashed_output(input: Seq<u8>, output_size: nat, stamp: u64) -> Seq<u8> {
    hash_chain(input + le_bytes(stamp), blocks_for(output_size)).take(output_size as int)
}

/// What the time-based extractor returns for `input` at `secs` seconds and
/// `stamp` nanoseconds: the hashed output of the input followed by the number
/// of the current time window.
pub open spec fn totp_output(
    input: Seq<u8>,
    output_size: nat,
    time_step: u64,
    secs: u64,
    stamp: u64,
) -> Seq<u8> {
    hashed_output(input + be_bytes((secs / time_step) as u64), output_size, stamp)
}

/// Relies on sha2's `Sha256::digest`: the SHA-256 digest of the bytes, 32 bytes long.
#[verifier::external_body]
fn sha256_digest(data: &[u8]) -> (r: Vec<u8>)
    ensures
        r@ == sha256_of(data@),
        r@.len() == 32,
{
    sha2::Sha256::digest(data).to_vec()
}

/// Relies on `std::time::SystemTime::now`: the nanoseconds since the Unix
/// epoch (0 before it), cut to their low 64 bits. Nothing is known of the value.
#[verifier::external_body]
fn clock_nanos() -> (r: u64)
{
    std::time::SystemTime::now().duration_since(std::time::UNIX_EPOCH).unwrap_or_default().as_nanos() as u64
}

/// Relies on `std::time::SystemTime::now`: the whole seconds since the Unix
/// epoch (0 before it). Nothing is known of the value.
#[verifier::external_body]
fn clock_secs() -> (r: u64)
{
    std::time::SystemTime::now().duration_since(std::time::UNIX_EPOCH).unwrap_or_default().as_secs()
}

fn push_all(dst: &mut Vec<u8>, src: &[u8])
    ensures
        final(dst)@ == old(dst)@ + src@,
{
    let mut i: usize = 0;
    while i < src.len()
        invariant
            i <= src@.len(),
            dst@ == old(dst)@ + src@.take(i as int),
        decreases src@.len() - i,
    {
        dst.push(src[i]);
        i += 1;
        proof {
            assert(dst@ =~= old(dst)@ + src@.take(i as int));
        }
    }
    proof {
        assert(src@.take(src@.len() as int) =~= src@);
    }
}

fn push_le_u64(dst: &mut Vec<u8>, x: u64)
    ensures
        final(dst)@ == old(dst)@ + le_bytes(x),
{
    let mut i: u64 = 0;
    while i < 8
        invariant
            i <= 8,
            dst@ == old(dst)@ + le_bytes(x).take(i as int),
        decreases 8 - i,
    {
        dst.push(((x >> (8 * i)) & 0xff) as u8);
        i += 1;
        proof {
            assert(dst@ =~= old(dst)@ + le_bytes(x).take(i as int));
        }
    }
    proof {
        assert(le_bytes(x).take(8) =~= le_bytes(x));
    }
}

fn push_be_u64(dst: &mut Vec<u8>, x: u64)
    ensures
        final(dst)@ == old(dst)@ + be_bytes(x),
{
    let mut i: u64 = 0;
    while i < 8
        invariant
            i <= 8,
            dst@ == old(dst)@ + be_bytes(x).take(i as int),
        decreases 8 - i,
    {
        dst.push(((x >> (8 * (7 - i))) & 0xff) as u8);
        i += 1;
        proof {
            assert(dst@ =~= old(dst)@ + be_bytes(x).take(i as int));
        }
    }
    proof {
        assert(be_bytes(x).take(8) =~= be_bytes(x));
    }
}

fn push_le_u32(dst: &mut Vec<u8>, x: u32)
    ensures
        final(dst)@ == old(dst)@ + le_bytes32(x),
{
    let mut i: u32 = 0;
    while i < 4
        invariant
            i <= 4,
            dst@ == old(dst)@ + le_bytes32(x).take(i as int),
        decreases 4 - i,
    {
        dst.push(((x >> (8 * i)) & 0xff) as u8);
        i += 1;
        proof {
            assert(dst@ =~= old(dst)@ + le_bytes32(x).take(i as int));
        }
    }
    proof {
        assert(le_bytes32(x).take(4) =~= le_bytes32(x));
    }
}

/// Extractors over raw entropy bytes.
pub struct BitExtractor;

impl BitExtractor {
    /// Von Neumann debiasing: every byte pair `(a, b)` is read bit by bit, and
    /// where the bits of `a` and `b` differ, the bit of `a` is kept. Kept bits are
    /// packed into bytes, least significant bit first. Returns the first
    /// `output_size` bytes (the first byte, if any, when `output_size` is 0).
    pub fn von_neumann_extractor(input: &[u8], output_size: usize) -> (r: EntropyResult<Vec<u8>>)
        ensures
            input@.len() < 2 ==> r == Err::<Vec<u8>, _>(EntropyError::InsufficientEntropy),
            input@.len() >= 2 ==> {
                let total = von_neumann_stream(input@);
                let want = if output_size == 0 { 1 } else { output_size as int };
                &&& (r is Ok <==> total.len() >= output_size)
                &&& r is Ok ==> r->Ok_0@ == total.take(
                    if total.len() < want { total.len() as int } else { want },
                )
                &&& r is Err ==> r == Err::<Vec<u8>, _>(EntropyError::InsufficientEntropy)
            },
    {
        if input.len() < 2 {
            return Err(EntropyError::InsufficientEntropy);
        }
        let ghost s = input@;
        let ghost npairs = (s.len() / 2) as nat;
        let ghost want = if output_size == 0 { 1 } else { output_size as int };
        let mut result: Vec<u8> = Vec::new();
        let mut bit_buffer: u8 = 0;
        let mut bit_count: u8 = 0;
        let len = input.len();
        let npairs_exec = len / 2;
        let mut c: usize = 0;
        while c < npairs_exec
            invariant
                s == input@,
                npairs == npairs_exec,
                npairs_exec == input@.len() / 2,
                c <= npairs_exec,
                2 * npairs_exec <= input@.len(),
                len == input@.len(),
                want == if output_size == 0 { 1 } else { output_size as int },
                bit_count < 8,
                result@.len() < want,
                ({
                    let seen = vn_bits(s, c as nat);
                    &&& result@ == pack_bytes(seen)
                    &&& bit_count as int == seen.len() % 8
                    &&& bit_buffer == pack_bits(
                        seen.subrange(seen.len() - bit_count, seen.len() as int),
                    )
                }),
            decreases npairs_exec - c,
        {
            let a = input[2 * c];
            let b = input[2 * c + 1];
            let ghost before = vn_bits(s, c as nat);
            let mut i: u8 = 0;
            while i < 8
                invariant
                    s == input@,
                    npairs == npairs_exec,
                    c < npairs_exec,
                    npairs_exec == input@.len() / 2,
                    2 * npairs_exec <= input@.len(),
                    len == input@.len(),
                    a == s[2 * c],
                    b == s[2 * c + 1],
                    before == vn_bits(s, c as nat),
                    i <= 8,
                    want == if output_size == 0 { 1 } else { output_size as int },
                    bit_count < 8,
                    result@.len() < want,
                    ({
                        let seen = before + pair_bits(a, b, i as nat);
                        &&& result@ == pack_bytes(seen)
                        &&& bit_count as int == seen.len() % 8
                        &&& bit_buffer == pack_bits(
                            seen.subrange(seen.len() - bit_count, seen.len() as int),
                        )
                    }),
                decreases 8 - i,
            {
                let bit_a = (a >> i) & 1;
                let bit_b = (b >> i) & 1;
                let ghost seen = before + pair_bits(a, b, i as nat);
                proof {
                    assert(pair_bits(a, b, (i + 1) as nat) == if bit_at(a, i) != bit_at(b, i) {
                        pair_bits(a, b, i as nat).push(bit_at(a, i))
                    } else {
                        pair_bits(a, b, i as nat)
                    });
                }
                if bit_a != bit_b {
                    let ghost nseen = seen.push(bit_a);
                    proof {
                        assert(before + pair_bits(a, b, (i + 1) as nat) =~= nseen);
                        assert(nseen.subrange(nseen.len() - (bit_count + 1), nseen.len() as int)
                            =~= seen.subrange(seen.len() - bit_count, seen.len() as int).push(
                            bit_a,
                        ));
                        assert(nseen.subrange(nseen.len() - (bit_count + 1), nseen.len() as int).drop_last()
                            =~= seen.subrange(seen.len() - bit_count, seen.len() as int));
                    }
                    bit_buffer = bit_buffer | (bit_a << bit_count);
                    bit_count = bit_count + 1;
                    if bit_count == 8 {
                        proof {
                            lemma_pack_bytes_push(seen, bit_a);
                            assert(seen.subrange(seen.len() - 7, seen.len() as int).push(bit_a)
                                =~= nseen.subrange(nseen.len() - 8, nseen.len() as int));
                        }
                        result.push(bit_buffer);
                        bit_buffer = 0;
                        bit_count = 0;
                        proof {
                            assert(nseen.subrange(nseen.len() - 0, nseen.len() as int)
                                =~= Seq::<u8>::empty());
                        }
                        if result.len() >= output_size {
                            proof {
                                lemma_pair_bits_prefix(a, b, (i + 1) as nat, 8);
                                lemma_vn_bits_prefix(s, c as nat, npairs, pair_bits(a, b, (i + 1) as nat));
                                lemma_pack_bytes_prefix(nseen, vn_bits(s, npairs));
                            }
                            return Ok(result);
                        }
                    } else {
                        proof {
                            lemma_pack_bytes_push_partial(seen, bit_a);
                        }
                    }
                } else {
                    proof {
                        assert(before + pair_bits(a, b, (i + 1) as nat) == seen);
                    }
                }
                i = i + 1;
            }
            proof {
                assert(vn_bits(s, (c + 1) as nat) == before + pair_bits(a, b, 8));
            }
            c = c + 1;
        }
        if result.len() < output_size {
            return Err(EntropyError::InsufficientEntropy);
        }
        proof {
            assert(result@.len() == 0);
            assert(von_neumann_stream(s).take(0) =~= result@);
        }
        Ok(result)
    }


    /// Hashing extractor at a given clock reading: the input followed by the
    /// eight little-endian bytes of `stamp` seeds a SHA-256 chain (each block
    /// the digest of the one before), cut to `output_size` bytes.
    pub fn cryptographic_extractor_at(input: &[u8], output_size: usize, stamp: u64) -> (r:
        EntropyResult<Vec<u8>>)
        ensures
            input@.len() == 0 <==> r is Err,
            r is Err ==> r == Err::<Vec<u8>, _>(EntropyError::InsufficientEntropy),
            r is Ok ==> r->Ok_0@ == hashed_output(input@, output_size as nat, stamp),
            r is Ok ==> r->Ok_0@.len() == output_size,
    {
        if input.len() == 0 {
            return Err(EntropyError::InsufficientEntropy);
        }
        let mut data: Vec<u8> = Vec::new();
        push_all(&mut data, input);
        push_le_u64(&mut data, stamp);
        let ghost seed = data@;
        let mut hash = sha256_digest(data.as_slice());
        let mut result: Vec<u8> = Vec::new();
        push_all(&mut result, hash.as_slice());
        let mut n: usize = 1;
        proof {
            assert(hash_chain(seed, 1) == hash_chain(seed, 0) + hash_block(seed, 0));
            assert(result@ =~= hash_chain(seed, 1));
        }
        while result.len() < output_size
            invariant
                n >= 1,
                result@ == hash_chain(seed, n as nat),
                result@.len() == 32 * n,
                hash@ == hash_block(seed, (n - 1) as nat),
                n == 1 || (n - 1) * 32 < output_size,
            decreases output_size + 32 - result@.len(),
        {
            hash = sha256_digest(hash.as_slice());
            push_all(&mut result, hash.as_slice());
            n = n + 1;
            proof {
                assert(hash_block(seed, (n - 1) as nat) == sha256_of(hash_block(seed, (n - 2) as nat)));
            }
        }
        proof {
            let o = output_size as nat;
            if o <= 32 {
                assert(n == 1);
            } else {
                assert(n == blocks_for(o)) by (nonlinear_arith)
                    requires
                        32 * n >= o,
                        n == 1 || (n - 1) * 32 < o,
                        o > 32,
                        n >= 1,
                ;
            }
        }
        result.truncate(output_size);
        Ok(result)
    }

    /// Hashing extractor: as `cryptographic_extractor_at`, with the clock read now.
    pub fn cryptographic_extractor(input: &[u8], output_size: usize) -> (r: EntropyResult<Vec<u8>>)
        ensures
            input@.len() == 0 <==> r is Err,
            r is Err ==> r == Err::<Vec<u8>, _>(EntropyError::InsufficientEntropy),
            r is Ok ==> exists|stamp: u64|
                r->Ok_0@ == #[trigger] hashed_output(input@, output_size as nat, stamp),
            r is Ok ==> r->Ok_0@.len() == output_size,
    {
        let stamp = clock_nanos();
        Self::cryptographic_extractor_at(input, output_size, stamp)
    }

    /// Time-based extractor at given clock readings: the input followed by the
    /// eight big-endian bytes of the window number `secs / time_step` goes
    /// through the hashing extractor.
    pub fn totp_extractor_at(
        input: &[u8],
        output_size: usize,
        time_step: u64,
        secs: u64,
        stamp: u64,
    ) -> (r: EntropyResult<Vec<u8>>)
        requires
            time_step > 0,
        ensures
            input@.len() == 0 <==> r is Err,
            r is Err ==> r == Err::<Vec<u8>, _>(EntropyError::InsufficientEntropy),
            r is Ok ==> r->Ok_0@ == totp_output(input@, output_size as nat, time_step, secs, stamp),
            r is Ok ==> r->Ok_0@.len() == output_size,
    {
        if input.len() == 0 {
            return Err(EntropyError::InsufficientEntropy);
        }
        let mut combined: Vec<u8> = Vec::new();
        push_all(&mut combined, input);
        push_be_u64(&mut combined, secs / time_step);
        Self::cryptographic_extractor_at(combined.as_slice(), output_size, stamp)
    }

    /// Time-based extractor: as `totp_extractor_at`, with the clock read now.
    pub fn totp_extractor(input: &[u8], output_size: usize, time_step: u64) -> (r: EntropyResult<
        Vec<u8>,
    >)
        requires
            time_step > 0,
        ensures
            input@.len() == 0 <==> r is Err,
            r is Err ==> r == Err::<Vec<u8>, _>(EntropyError::InsufficientEntropy),
            r is Ok ==> exists|secs: u64, stamp: u64|
                r->Ok_0@ == #[trigger] totp_output(input@, output_size as nat, time_step, secs, stamp),
            r is Ok ==> r->Ok_0@.len() == output_size,
    {
        if input.len() == 0 {
            return Err(EntropyError::InsufficientEntropy);
        }
        let secs = clock_secs();
        let stamp = clock_nanos();
        Self::totp_extractor_at(input, output_size, time_step, secs, stamp)
    }

    /// Whitening: every byte is XORed with the byte before it (the first with
    /// 0). Returns the first `output_size` whitened bytes (the first one when
    /// `output_size` is 0).
    pub fn whitening_extractor(input: &[u8], output_size: usize) -> (r: EntropyResult<Vec<u8>>)
        ensures
            (input@.len() < 2 || input@.len() < output_size) <==> r is Err,
            r is Err ==> r == Err::<Vec<u8>, _>(EntropyError::InsufficientEntropy),
            r is Ok ==> r->Ok_0@ == whitened(input@).take(
                if output_size == 0 { 1 } else { output_size as int },
            ),
    {
        if input.len() < 2 {
            return Err(EntropyError::InsufficientEntropy);
        }
        let want: usize = if output_size == 0 { 1 } else { output_size };
        let n: usize = if input.len() < want { input.len() } else { want };
        let mut result: Vec<u8> = Vec::new();
        let mut last_byte: u8 = 0;
        let mut i: usize = 0;
        while i < n
            invariant
                n <= input@.len(),
                i <= n,
                result@ == whitened(input@).take(i as int),
                i > 0 ==> last_byte == input@[i - 1],
                i == 0 ==> last_byte == 0,
            decreases n - i,
        {
            let byte = input[i];
            let w = byte ^ last_byte;
            proof {
                if i == 0 {
                    assert(byte ^ 0u8 == byte) by (bit_vector);
                }
            }
            result.push(w);
            last_byte = byte;
            i += 1;
            proof {
                assert(result@ =~= whitened(input@).take(i as int));
            }
        }
        if result.len() < output_size {
            return Err(EntropyError::InsufficientEntropy);
        }
        Ok(result)
    }
}

/// What the von Neumann extractor returns on success: its stream cut to
/// `output_size` bytes (to its first byte, if any, when `output_size` is 0).
pub open spec fn von_neumann_output(s: Seq<u8>, output_size: nat) -> Seq<u8> {
    let total = von_neumann_stream(s);
    let want: int = if output_size == 0 { 1 } else { output_size as int };
    total.take(if total.len() < want { total.len() as int } else { want })
}

/// Whether the von Neumann extractor succeeds on `s`.
pub open spec fn von_neumann_succeeds(s: Seq<u8>, output_size: nat) -> bool {
    s.len() >= 2 && von_neumann_stream(s).len() >= output_size
}

/// The input of the combined extractor mixed with the clock reading `stamp`
/// and the process identifier `pid`, both little-endian.
pub open spec fn mixed_input(input: Seq<u8>, stamp: u64, pid: u32) -> Seq<u8> {
    input + le_bytes(stamp) + le_bytes32(pid)
}

/// What the combined extractor returns for `input` when the clock read
/// `mix_stamp` while mixing and `hash_stamp` while hashing.
pub open spec fn combined_output(
    input: Seq<u8>,
    output_size: nat,
    pid: u32,
    mix_stamp: u64,
    hash_stamp: u64,
) -> Seq<u8> {
    let enhanced = mixed_input(input, mix_stamp, pid);
    if output_size <= enhanced.len() / 2 {
        let hashed = hashed_output(whitened(enhanced), 2 * output_size, hash_stamp);
        if von_neumann_succeeds(hashed, output_size) {
            von_neumann_output(hashed, output_size)
        } else {
            hashed.take(output_size as int)
        }
    } else {
        hashed_output(enhanced, output_size, hash_stamp)
    }
}

/// Chains whitening, hashing and von Neumann debiasing over the input mixed
/// with the clock and the process identifier.
pub struct CombinedExtractor;

impl CombinedExtractor {
    /// Combined extraction at given clock readings. The input followed by
    /// `mix_stamp` and `pid` is the mixed input. When it holds at least twice
    /// the requested size, it is whitened, hashed to twice the size with
    /// `hash_stamp` and debiased (falling back to the first `output_size`
    /// hashed bytes when debiasing fails); otherwise it is only hashed.
    pub fn extract_at(
        input: &[u8],
        output_size: usize,
        pid: u32,
        mix_stamp: u64,
        hash_stamp: u64,
    ) -> (r: EntropyResult<Vec<u8>>)
        ensures
            input@.len() == 0 <==> r is Err,
            r is Err ==> r == Err::<Vec<u8>, _>(EntropyError::InsufficientEntropy),
            r is Ok ==> r->Ok_0@ == combined_output(
                input@,
                output_size as nat,
                pid,
                mix_stamp,
                hash_stamp,
            ),
    {
        if input.len() == 0 {
            return Err(EntropyError::InsufficientEntropy);
        }
        let mut enhanced: Vec<u8> = Vec::new();
        push_all(&mut enhanced, input);
        push_le_u64(&mut enhanced, mix_stamp);
        push_le_u32(&mut enhanced, pid);
        proof {
            assert(enhanced@ =~= mixed_input(input@, mix_stamp, pid));
        }
        if output_size <= enhanced.len() / 2 {
            let whitened_bytes = match BitExtractor::whitening_extractor(enhanced.as_slice(), enhanced.len()) {
                Ok(data) => data,
                Err(_) => enhanced.clone(),
            };
            proof {
                assert(whitened(enhanced@).take(enhanced@.len() as int) =~= whitened(enhanced@));
            }
            let hashed = match BitExtractor::cryptographic_extractor_at(
                whitened_bytes.as_slice(),
                output_size * 2,
                hash_stamp,
            ) {
                Ok(data) => data,
                Err(_) => {
                    return BitExtractor::cryptographic_extractor_at(enhanced.as_slice(), output_size, hash_stamp);
                },
            };
            match BitExtractor::von_neumann_extractor(hashed.as_slice(), output_size) {
                Ok(data) => Ok(data),
                Err(_) => {
                    let mut result = hashed;
                    result.truncate(output_size);
                    Ok(result)
                },
            }
        } else {
            BitExtractor::cryptographic_extractor_at(enhanced.as_slice(), output_size, hash_stamp)
        }
    }

    /// Combined extraction with the clock read now, mixed with the process
    /// identifier `pid`: as `extract_at` for some two clock readings.
    pub fn extract_with_pid(input: &[u8], output_size: usize, pid: u32) -> (r: EntropyResult<Vec<u8>>)
        ensures
            input@.len() == 0 <==> r is Err,
            r is Err ==> r == Err::<Vec<u8>, _>(EntropyError::InsufficientEntropy),
            r is Ok ==> exists|mix_stamp: u64, hash_stamp: u64|
                r->Ok_0@ == #[trigger] combined_output(
                    input@,
                    output_size as nat,
                    pid,
                    mix_stamp,
                    hash_stamp,
                ),
    {
        let mix_stamp = clock_nanos();
        let hash_stamp = clock_nanos();
        Self::extract_at(input, output_size, pid, mix_stamp, hash_stamp)
    }
}

} // verus!
