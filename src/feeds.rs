//! Turning records from outside entropy feeds into bytes, and ordering the
//! feeds by priority.
use vstd::prelude::*;

verus! {

/// Where a source of priority `p` goes among sources ordered by priority:
/// before the first one of a strictly larger priority, so that sources of
/// equal priority keep the order in which they were registered.
pub fn priority_slot(priorities: &[u8], p: u8) -> (r: usize)
    ensures
        r <= priorities@.len(),
        forall|j: int| 0 <= j < r ==> #[trigger] priorities@[j] <= p,
        r < priorities@.len() ==> priorities@[r as int] > p,
{
    let mut i: usize = 0;
    while i < priorities.len()
        invariant
            i <= priorities@.len(),
            forall|j: int| 0 <= j < i ==> #[trigger] priorities@[j] <= p,
        decreases priorities@.len() - i,
    {
        if priorities[i] > p {
            return i;
        }
        i += 1;
    }
    i
}

/// The chained whitening of a record: byte `i` is the record byte XOR the
/// low byte of `i` XOR the previous output byte (0 before the first).
pub open spec fn chain_whitened(record: Seq<u8>) -> Seq<u8>
    decreases record.len(),
{
    if record.len() == 0 {
        Seq::empty()
    } else {
        let prev = chain_whitened(record.drop_last());
        let i = record.len() - 1;
        let last: u8 = if i == 0 { 0 } else { prev.last() };
        prev.push(record.last() ^ (i as u8) ^ last)
    }
}

proof fn lemma_chain_whitened_len(record: Seq<u8>)
    ensures
        chain_whitened(record).len() == record.len(),
    decreases record.len(),
{
    if record.len() > 0 {
        lemma_chain_whitened_len(record.drop_last());
    }
}

/// Relies on `std::time::SystemTime::now`: the nanoseconds within the
/// current second. Nothing is known of the value.
#[verifier::external_body]
fn clock_subsec_nanos() -> (r: u32)
{
    std::time::SystemTime::now().duration_since(std::time::UNIX_EPOCH).unwrap_or_default().subsec_nanos()
}

/// Exactly `n` bytes from a satellite record: the chained whitening of its
/// first bytes, then, where the record is too short, clock bytes each chained
/// with the byte before.
pub fn satellite_entropy(record: &[u8], n: usize) -> (r: Vec<u8>)
    ensures
        r@.len() == n,
        r@.take(if n < record@.len() { n as int } else { record@.len() as int }) == chain_whitened(
            record@.take(if n < record@.len() { n as int } else { record@.len() as int }),
        ),
{
    let m: usize = if n < record.len() { n } else { record.len() };
    let mut result: Vec<u8> = Vec::new();
    let mut last_byte: u8 = 0;
    let mut i: usize = 0;
    while i < m
        invariant
            m <= record@.len(),
            m <= n,
            i <= m,
            result@ == chain_whitened(record@.take(i as int)),
            result@.len() == i,
            i > 0 ==> last_byte == result@.last(),
            i == 0 ==> last_byte == 0,
        decreases m - i,
    {
        proof {
            lemma_chain_whitened_len(record@.take(i as int));
            assert(record@.take(i + 1).drop_last() =~= record@.take(i as int));
        }
        let whitened = record[i] ^ (#[verifier::truncate] (i as u8)) ^ last_byte;
        result.push(whitened);
        last_byte = whitened;
        i += 1;
    }
    let ghost head = result@;
    while result.len() < n
        invariant
            result@.len() <= n,
            result@.len() >= m,
            result@.take(m as int) == head,
            head.len() == m,
        decreases n - result@.len(),
    {
        let byte = (#[verifier::truncate] ((clock_subsec_nanos() & 0xff) as u8)) ^ last_byte;
        result.push(byte);
        last_byte = byte;
        proof {
            assert(result@.take(m as int) =~= head);
        }
    }
    proof {
        lemma_chain_whitened_len(record@.take(m as int));
    }
    result
}

/// Exactly `n` bytes from a weather record: its first bytes as they are,
/// then, where the record is too short, clock bytes.
pub fn weather_entropy(record: &[u8], n: usize) -> (r: Vec<u8>)
    ensures
        r@.len() == n,
        r@.take(if n < record@.len() { n as int } else { record@.len() as int }) == record@.take(
            if n < record@.len() { n as int } else { record@.len() as int },
        ),
{
    let m: usize = if n < record.len() { n } else { record.len() };
    let mut result: Vec<u8> = Vec::new();
    let mut i: usize = 0;
    while i < m
        invariant
            m <= record@.len(),
            m <= n,
            i <= m,
            result@ == record@.take(i as int),
        decreases m - i,
    {
        result.push(record[i]);
        i += 1;
        proof {
            assert(result@ =~= record@.take(i as int));
        }
    }
    let ghost head = result@;
    while result.len() < n
        invariant
            result@.len() <= n,
            result@.len() >= m,
            result@.take(m as int) == head,
            head.len() == m,
        decreases n - result@.len(),
    {
        result.push(#[verifier::truncate] ((clock_subsec_nanos() & 0xff) as u8));
        proof {
            assert(result@.take(m as int) =~= head);
        }
    }
    result
}

} // verus!
