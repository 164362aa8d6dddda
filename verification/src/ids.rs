//! Archive record identifiers: 18 bytes — the low six bytes of the current
//! Unix millisecond timestamp, big-endian, then eight process-stable random
//! bytes, then a wrapping four-byte counter — rendered in base64.

use vstd::prelude::*;

use crate::host::{b64_of, base64_encode, random_bytes8};

verus! {

/// The 18 identifier bytes for a given clock reading, random prefix and
/// counter value.
pub open spec fn spec_id_bytes(millis: u64, rnd: Seq<u8>, ctr: u32) -> Seq<u8> {
    seq![
        ((millis as int / 0x100_0000_0000) % 256) as u8,
        ((millis as int / 0x1_0000_0000) % 256) as u8,
        ((millis as int / 0x100_0000) % 256) as u8,
        ((millis as int / 0x1_0000) % 256) as u8,
        ((millis as int / 0x100) % 256) as u8,
        ((millis as int) % 256) as u8,
    ] + rnd + seq![
        ((ctr as int / 0x100_0000) % 256) as u8,
        ((ctr as int / 0x1_0000) % 256) as u8,
        ((ctr as int / 0x100) % 256) as u8,
        ((ctr as int) % 256) as u8,
    ]
}

/// Generator state: the random prefix is drawn once at startup; the
/// counter advances by one per identifier and wraps.
pub struct IdGenerator {
    pub rnd: Vec<u8>,
    pub ctr: u32,
}

impl IdGenerator {
    pub open spec fn wf(&self) -> bool {
        self.rnd@.len() == 8
    }

    pub fn new() -> (r: IdGenerator)
        ensures
            r.wf(),
            r.ctr == 0,
    {
        IdGenerator { rnd: random_bytes8(), ctr: 0 }
    }

    /// The identifier bytes for the current state, and the counter step.
    pub fn next_id(&mut self, now_millis: u64) -> (r: String)
        requires
            old(self).wf(),
        ensures
            final(self).wf(),
            final(self).rnd == old(self).rnd,
            final(self).ctr as int == (old(self).ctr as int + 1) % 0x1_0000_0000,
            r@ == b64_of(spec_id_bytes(now_millis, old(self).rnd@, old(self).ctr)),
            r@.len() == 24,
    {
        let mut bytes: Vec<u8> = Vec::new();
        bytes.push((now_millis / 0x100_0000_0000 % 256) as u8);
        bytes.push((now_millis / 0x1_0000_0000 % 256) as u8);
        bytes.push((now_millis / 0x100_0000 % 256) as u8);
        bytes.push((now_millis / 0x1_0000 % 256) as u8);
        bytes.push((now_millis / 0x100 % 256) as u8);
        bytes.push((now_millis % 256) as u8);
        proof {
            assert(bytes@ =~= spec_id_bytes(now_millis, self.rnd@, self.ctr).take(6));
        }
        let mut i: usize = 0;
        while i < 8
            invariant
                i <= 8,
                self == old(self),
                self.rnd@.len() == 8,
                bytes@.len() == 6 + i,
                bytes@ =~= spec_id_bytes(now_millis, self.rnd@, self.ctr).take(6 + i),
            decreases 8 - i,
        {
            let b = self.rnd[i];
            bytes.push(b);
            proof {
                assert(spec_id_bytes(now_millis, self.rnd@, self.ctr)[6 + i as int]
                    == self.rnd@[i as int]);
                assert(bytes@ =~= spec_id_bytes(now_millis, self.rnd@, self.ctr).take(
                    6 + i as int + 1,
                ));
            }
            i += 1;
        }
        let c = self.ctr;
        bytes.push((c / 0x100_0000 % 256) as u8);
        bytes.push((c / 0x1_0000 % 256) as u8);
        bytes.push((c / 0x100 % 256) as u8);
        bytes.push((c % 256) as u8);
        proof {
            assert(bytes@ =~= spec_id_bytes(now_millis, self.rnd@, self.ctr));
        }
        let r = base64_encode(&bytes);
        if self.ctr == 0xffff_ffff {
            self.ctr = 0;
        } else {
            self.ctr = self.ctr + 1;
        }
        r
    }
}

/// Identifiers collide only if both the 48-bit millisecond prefix and the
/// counter agree: within one millisecond the counter separates any two of
/// up to 2^32 consecutive identifiers, and across distinct milliseconds
/// (below the 48-bit wrap) the timestamp prefix separates them.
pub proof fn lemma_id_bytes_unique(m1: u64, m2: u64, rnd: Seq<u8>, c1: u32, c2: u32)
    requires
        rnd.len() == 8,
        m1 % 0x1_0000_0000_0000 != m2 % 0x1_0000_0000_0000 || c1 != c2,
    ensures
        spec_id_bytes(m1, rnd, c1) != spec_id_bytes(m2, rnd, c2),
{
    let s1 = spec_id_bytes(m1, rnd, c1);
    let s2 = spec_id_bytes(m2, rnd, c2);
    if s1 == s2 {
        assert forall|i: int| 0 <= i < 6 implies s1[i] == s2[i] by {}
        assert forall|i: int| 14 <= i < 18 implies s1[i] == s2[i] by {}
        assert(s1[0] == ((m1 as int / 0x100_0000_0000) % 256) as u8);
        assert(s1[1] == ((m1 as int / 0x1_0000_0000) % 256) as u8);
        assert(s1[2] == ((m1 as int / 0x100_0000) % 256) as u8);
        assert(s1[3] == ((m1 as int / 0x1_0000) % 256) as u8);
        assert(s1[4] == ((m1 as int / 0x100) % 256) as u8);
        assert(s1[5] == ((m1 as int) % 256) as u8);
        assert(s1[14] == ((c1 as int / 0x100_0000) % 256) as u8);
        assert(s1[15] == ((c1 as int / 0x1_0000) % 256) as u8);
        assert(s1[16] == ((c1 as int / 0x100) % 256) as u8);
        assert(s1[17] == ((c1 as int) % 256) as u8);
        assert(m1 / 0x100_0000_0000 % 256 == m2 / 0x100_0000_0000 % 256
            && m1 / 0x1_0000_0000 % 256 == m2 / 0x1_0000_0000 % 256
            && m1 / 0x100_0000 % 256 == m2 / 0x100_0000 % 256
            && m1 / 0x1_0000 % 256 == m2 / 0x1_0000 % 256
            && m1 / 0x100 % 256 == m2 / 0x100 % 256
            && m1 % 256 == m2 % 256);
        assert(m1 % 0x1_0000_0000_0000 == m2 % 0x1_0000_0000_0000) by (bit_vector)
            requires
                m1 / 0x100_0000_0000 % 256 == m2 / 0x100_0000_0000 % 256,
                m1 / 0x1_0000_0000 % 256 == m2 / 0x1_0000_0000 % 256,
                m1 / 0x100_0000 % 256 == m2 / 0x100_0000 % 256,
                m1 / 0x1_0000 % 256 == m2 / 0x1_0000 % 256,
                m1 / 0x100 % 256 == m2 / 0x100 % 256,
                m1 % 256 == m2 % 256,
        ;
        assert(c1 / 0x100_0000 % 256 == c2 / 0x100_0000 % 256 && c1 / 0x1_0000 % 256 == c2
            / 0x1_0000 % 256 && c1 / 0x100 % 256 == c2 / 0x100 % 256 && c1 % 256 == c2 % 256);
        assert(c1 == c2) by (bit_vector)
            requires
                c1 / 0x100_0000 % 256 == c2 / 0x100_0000 % 256,
                c1 / 0x1_0000 % 256 == c2 / 0x1_0000 % 256,
                c1 / 0x100 % 256 == c2 / 0x100 % 256,
                c1 % 256 == c2 % 256,
        ;
    }
}

} // verus!
