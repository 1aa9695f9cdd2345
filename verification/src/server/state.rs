//! Process-local fallback secret for signing tokens in development.

use vstd::prelude::*;

verus! {

/// Byte `i` of the fallback secret of process `pid` : the low byte of
/// `pid * 2654435761 + i`.
pub open spec fn secret_byte(pid: u32, i: int) -> u8 {
    ((pid as int * 2654435761 + i) % 256) as u8
}

/// The 64-byte fallback secret tied to process `pid`. Sufficient for
/// development only ; production deployments set their own secret.
pub fn secret_from_pid(pid: u32) -> (bytes: Vec<u8>)
    ensures
        bytes@.len() == 64,
        forall|i: int| 0 <= i < 64 ==> #[trigger] bytes@[i] == secret_byte(pid, i),
{
    let p = pid as u64;
    let mut bytes: Vec<u8> = Vec::new();
    let mut i: u64 = 0;
    while i < 64
        invariant
            p == pid as u64,
            i <= 64,
            bytes@.len() == i,
            forall|j: int| 0 <= j < i ==> #[trigger] bytes@[j] == secret_byte(pid, j),
        decreases 64 - i,
    {
        let x = p.wrapping_mul(2_654_435_761u64);
        let y = x.wrapping_add(i);
        let n = y & 0xFFu64;
        proof {
            let m = pid as int * 2654435761;
            assert(x as int == m % 0x1_0000_0000_0000_0000) by {
                assert(0 <= m < 0x1_0000_0000_0000_0000 * 0x1_0000) by (nonlinear_arith)
                    requires
                        0 <= pid <= 0xFFFF_FFFF,
                        m == pid as int * 2654435761,
                ;
            }
            assert(y as int == (x as int + i as int) % 0x1_0000_0000_0000_0000);
            assert(y & 0xFFu64 == y % 256) by (bit_vector);
            lemma_low_byte(m, i as int);
        }
        bytes.push(n as u8);
        i = i + 1;
    }
    bytes
}

proof fn lemma_low_byte(m: int, i: int)
    requires
        m >= 0,
        0 <= i < 64,
    ensures
        ((m % 0x1_0000_0000_0000_0000 + i) % 0x1_0000_0000_0000_0000) % 256 == (m + i) % 256,
{
    let w = 0x1_0000_0000_0000_0000int;
    let k = 0x100_0000_0000_0000int;
    assert(w == 256 * k);
    vstd::arithmetic::div_mod::lemma_mod_mod(m % w + i, 256, k);
    vstd::arithmetic::div_mod::lemma_mod_mod(m, 256, k);
    vstd::arithmetic::div_mod::lemma_add_mod_noop(m % w, i, 256);
    vstd::arithmetic::div_mod::lemma_add_mod_noop(m, i, 256);
}

} // verus!
