//! Seed mixing for the system-noise entropy source.
use vstd::prelude::*;
use vstd::slice::*;

verus! {

/// Byte `k` of `x`, least significant first.
pub open spec fn byte_of(x: u64, k: int) -> u8 {
    ((x >> (8 * k) as u64) & 0xffu64) as u8
}

/// Byte `i` (below 24) of a noise buffer after mixing: the address bytes,
/// then the thread identifier bytes, then the processor time bytes, each
/// slot left as it was where its source is missing.
pub open spec fn noise_head(old: Seq<u8>, addr: u64, thread_id: Option<u64>, cpu_time: Option<u64>, i: int) -> u8 {
    if i < 8 {
        byte_of(addr, i)
    } else if i < 16 {
        match thread_id {
            Some(t) => byte_of(t, i - 8),
            None => old[i],
        }
    } else {
        match cpu_time {
            Some(c) => byte_of(c, i - 16),
            None => old[i],
        }
    }
}

/// A noise buffer after mixing: the first 24 bytes as `noise_head` gives
/// them, every later byte the XOR of the three head bytes in its column.
pub open spec fn mixed_noise(old: Seq<u8>, addr: u64, thread_id: Option<u64>, cpu_time: Option<u64>) -> Seq<u8> {
    Seq::new(
        old.len(),
        |i: int|
            if i < 24 {
                noise_head(old, addr, thread_id, cpu_time, i)
            } else {
                noise_head(old, addr, thread_id, cpu_time, i % 8) ^ noise_head(
                    old,
                    addr,
                    thread_id,
                    cpu_time,
                    8 + i % 8,
                ) ^ noise_head(old, addr, thread_id, cpu_time, 16 + i % 8)
            },
    )
}

/// An entropy source that draws on the local machine: clock, process,
/// thread and memory layout.
pub struct SystemNoiseSource {
    name: String,
}

impl SystemNoiseSource {
    pub closed spec fn name_view(&self) -> Seq<char> {
        self.name@
    }

    pub fn new() -> (r: Self)
        ensures
            r.name_view() == "Systemrauschen"@,
    {
        proof {
            reveal_strlit("Systemrauschen");
        }
        SystemNoiseSource { name: "Systemrauschen".to_owned() }
    }

    pub fn name(&self) -> (r: &str)
        ensures
            r@ == self.name_view(),
    {
        self.name.as_str()
    }

    /// Fills `buffer` with machine noise: the bytes of a memory address, of
    /// the thread identifier and of the processor time, least significant
    /// first, in slots of eight; every byte past the first 24 is the XOR of
    /// the three bytes above it in its column.
    pub fn add_additional_noise(
        &self,
        buffer: &mut [u8],
        addr: u64,
        thread_id: Option<u64>,
        cpu_time: Option<u64>,
    )
        ensures
            final(buffer)@ == mixed_noise(old(buffer)@, addr, thread_id, cpu_time),
    {
        let len = buffer.len();
        if len == 0 {
            proof {
                assert(buffer@ =~= mixed_noise(old(buffer)@, addr, thread_id, cpu_time));
            }
            return;
        }
        let ghost o = old(buffer)@;
        let mut i: usize = 0;
        while i < len
            invariant
                len == buffer@.len(),
                o.len() == len,
                i <= len,
                forall|j: int| 0 <= j < i && j < 24 ==> #[trigger] buffer@[j] == noise_head(o, addr, thread_id, cpu_time, j),
                forall|j: int| 0 <= j < i && j >= 24 ==> #[trigger] buffer@[j] == mixed_noise(o, addr, thread_id, cpu_time)[j],
                forall|j: int| i <= j < len ==> #[trigger] buffer@[j] == o[j],
            decreases len - i,
        {
            if i < 8 {
                buffer.set(i, ((addr >> (8 * i as u64)) & 0xff) as u8);
            } else if i < 16 {
                match thread_id {
                    Some(t) => buffer.set(i, ((t >> (8 * (i - 8) as u64)) & 0xff) as u8),
                    None => {},
                }
            } else if i < 24 {
                match cpu_time {
                    Some(c) => buffer.set(i, ((c >> (8 * (i - 16) as u64)) & 0xff) as u8),
                    None => {},
                }
            } else {
                let col = i % 8;
                let x = buffer[col] ^ buffer[8 + col] ^ buffer[16 + col];
                buffer.set(i, x);
            }
            i += 1;
        }
        proof {
            assert(buffer@ =~= mixed_noise(o, addr, thread_id, cpu_time));
        }
    }
}

} // verus!
