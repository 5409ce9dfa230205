//! Fingerprints: the message that identifies a value, and its digest.

use crate::models::Fingerprint;
use vstd::prelude::*;
use vstd::string::*;

verus! {

/// The digest of a message under BLAKE3.
pub uninterp spec fn blake3_digest(message: Seq<u8>) -> Seq<u8>;

/// `blake3::hash` on the whole message: the thirty-two bytes of its digest,
/// which depend on the bytes of the message alone.
#[verifier::external_body]
fn blake3_hash(message: &Vec<u8>) -> (digest: [u8; 32])
    ensures
        digest@ == blake3_digest(message@),
{
    *blake3::hash(message.as_slice()).as_bytes()
}

/// 256 to the power `i`.
pub open spec fn byte_unit(i: nat) -> int
    decreases i,
{
    if i == 0 {
        1
    } else {
        256 * byte_unit((i - 1) as nat)
    }
}

/// The lowest `n` bytes of a number, the lowest first.
pub open spec fn low_bytes(x: int, n: nat) -> Seq<u8>
    decreases n,
{
    if n == 0 {
        Seq::empty()
    } else {
        seq![(x % 256) as u8] + low_bytes(x / 256, (n - 1) as nat)
    }
}

/// The eight bytes of a number, the lowest first.
pub open spec fn le_bytes(x: u64) -> Seq<u8> {
    low_bytes(x as int, 8)
}

proof fn low_bytes_len(x: int, n: nat)
    ensures
        low_bytes(x, n).len() == n,
    decreases n,
{
    if n > 0 {
        low_bytes_len(x / 256, (n - 1) as nat);
    }
}

/// Two numbers below `256^n` with the same lowest `n` bytes are the same.
pub proof fn low_bytes_determine(x: int, y: int, n: nat)
    requires
        0 <= x < byte_unit(n),
        0 <= y < byte_unit(n),
        low_bytes(x, n) == low_bytes(y, n),
    ensures
        x == y,
    decreases n,
{
    if n > 0 {
        let unit = byte_unit((n - 1) as nat);
        low_bytes_len(x / 256, (n - 1) as nat);
        low_bytes_len(y / 256, (n - 1) as nat);
        let a = low_bytes(x, n);
        let b = low_bytes(y, n);
        assert(a[0] == (x % 256) as u8);
        assert(b[0] == (y % 256) as u8);
        assert(a.subrange(1, n as int) =~= low_bytes(x / 256, (n - 1) as nat));
        assert(b.subrange(1, n as int) =~= low_bytes(y / 256, (n - 1) as nat));
        assert(x / 256 < unit && y / 256 < unit) by (nonlinear_arith)
            requires
                0 <= x < 256 * unit,
                0 <= y < 256 * unit,
        ;
        low_bytes_determine(x / 256, y / 256, (n - 1) as nat);
    }
}

/// The bytes of a sixty-four bit number determine it.
pub proof fn le_bytes_determine(x: u64, y: u64)
    requires
        le_bytes(x) == le_bytes(y),
    ensures
        x == y,
{
    assert(byte_unit(8) == 0x1_0000_0000_0000_0000) by {
        reveal_with_fuel(byte_unit, 9);
    }
    low_bytes_determine(x as int, y as int, 8);
}

/// The bytes of numbers, one after the other.
pub open spec fn all_le_bytes(values: Seq<u64>) -> Seq<u8>
    decreases values.len(),
{
    if values.len() == 0 {
        Seq::empty()
    } else {
        all_le_bytes(values.drop_last()) + le_bytes(values.last())
    }
}

/// The eight bytes of a number, the highest first.
pub open spec fn be_bytes(x: u64) -> Seq<u8> {
    le_bytes(x).reverse()
}

/// The bytes of numbers, one after the other, the highest of each first.
pub open spec fn all_be_bytes(values: Seq<u64>) -> Seq<u8>
    decreases values.len(),
{
    if values.len() == 0 {
        Seq::empty()
    } else {
        all_be_bytes(values.drop_last()) + be_bytes(values.last())
    }
}

/// A message under construction.
pub struct Message {
    pub bytes: Vec<u8>,
}

impl View for Message {
    type V = Seq<u8>;

    open spec fn view(&self) -> Seq<u8> {
        self.bytes@
    }
}

impl Message {
    /// The empty message.
    pub fn new() -> (m: Self)
        ensures
            m@ == Seq::<u8>::empty(),
    {
        Message { bytes: Vec::new() }
    }

    /// Appends a slice.
    fn push_slice(&mut self, s: &[u8])
        ensures
            final(self)@ == old(self)@ + s@,
    {
        let ghost start = self@;
        let mut i: usize = 0;
        while i < s.len()
            invariant
                i <= s@.len(),
                self@ == start + s@.take(i as int),
            decreases s@.len() - i,
        {
            let mut bytes: Vec<u8> = Vec::new();
            std::mem::swap(&mut bytes, &mut self.bytes);
            bytes.push(s[i]);
            self.bytes = bytes;
            assert(self@ =~= start + s@.take(i + 1));
            i = i + 1;
        }
        assert(s@.take(i as int) =~= s@);
    }

    /// Appends a text.
    pub fn push_text(&mut self, text: &str)
        ensures
            final(self)@ == old(self)@ + text.spec_bytes(),
    {
        self.push_slice(text.as_bytes());
    }

    /// Appends one byte.
    pub fn push_byte(&mut self, byte: u8)
        ensures
            final(self)@ == old(self)@.push(byte),
    {
        let mut bytes: Vec<u8> = Vec::new();
        std::mem::swap(&mut bytes, &mut self.bytes);
        bytes.push(byte);
        self.bytes = bytes;
    }

    /// Appends a fingerprint.
    pub fn push_fingerprint(&mut self, f: &Fingerprint)
        ensures
            final(self)@ == old(self)@ + f.bytes@,
    {
        self.push_slice(f.bytes.as_slice());
    }

    /// Appends the eight bytes of a number.
    pub fn push_u64(&mut self, x: u64)
        ensures
            final(self)@ == old(self)@ + le_bytes(x),
    {
        let ghost start = self@;
        let mut rest = x;
        let mut i: usize = 0;
        proof {
            assert(start + low_bytes(x as int, 8) =~= self@ + low_bytes(rest as int, 8));
        }
        while i < 8
            invariant
                i <= 8,
                start + le_bytes(x) == self@ + low_bytes(rest as int, (8 - i) as nat),
            decreases 8 - i,
        {
            let ghost before = self@;
            let ghost tail = low_bytes(rest as int, (8 - i) as nat);
            self.push_byte((rest % 256) as u8);
            proof {
                assert(tail == seq![(rest % 256) as u8] + low_bytes(
                    rest as int / 256,
                    (7 - i) as nat,
                ));
                assert(before + tail =~= self@ + low_bytes(rest as int / 256, (7 - i) as nat));
            }
            rest = rest / 256;
            i = i + 1;
        }
        assert(self@ + low_bytes(rest as int, 0) =~= self@);
    }

    /// Appends the bytes of numbers, one after the other.
    pub fn push_all(&mut self, values: &Vec<u64>)
        ensures
            final(self)@ == old(self)@ + all_le_bytes(values@),
    {
        let ghost start = self@;
        let mut i: usize = 0;
        assert(values@.take(0) =~= Seq::empty());
        assert(self@ =~= start + all_le_bytes(values@.take(0)));
        while i < values.len()
            invariant
                i <= values@.len(),
                self@ == start + all_le_bytes(values@.take(i as int)),
            decreases values@.len() - i,
        {
            self.push_u64(values[i]);
            proof {
                assert(values@.take(i + 1).drop_last() =~= values@.take(i as int));
                assert(self@ =~= start + all_le_bytes(values@.take(i + 1)));
            }
            i = i + 1;
        }
        assert(values@.take(i as int) =~= values@);
    }

    /// Appends the eight bytes of a number, the highest first.
    pub fn push_u64_reversed(&mut self, x: u64)
        ensures
            final(self)@ == old(self)@ + be_bytes(x),
    {
        let ghost start = self@;
        let mut low = Message::new();
        low.push_u64(x);
        proof {
            low_bytes_len(x as int, 8);
        }
        assert(low@ =~= le_bytes(x));
        let mut i: usize = 0;
        while i < 8
            invariant
                i <= 8,
                low@ == le_bytes(x),
                low@.len() == 8,
                self@ == start + be_bytes(x).take(i as int),
            decreases 8 - i,
        {
            self.push_byte(low.bytes[7 - i]);
            assert(self@ =~= start + be_bytes(x).take(i + 1));
            i = i + 1;
        }
        assert(be_bytes(x).take(8) =~= be_bytes(x));
    }

    /// Appends the bytes of numbers, one after the other, the highest of each first.
    pub fn push_all_reversed(&mut self, values: &Vec<u64>)
        ensures
            final(self)@ == old(self)@ + all_be_bytes(values@),
    {
        let ghost start = self@;
        let mut i: usize = 0;
        assert(values@.take(0) =~= Seq::empty());
        assert(self@ =~= start + all_be_bytes(values@.take(0)));
        while i < values.len()
            invariant
                i <= values@.len(),
                self@ == start + all_be_bytes(values@.take(i as int)),
            decreases values@.len() - i,
        {
            self.push_u64_reversed(values[i]);
            proof {
                assert(values@.take(i + 1).drop_last() =~= values@.take(i as int));
                assert(self@ =~= start + all_be_bytes(values@.take(i + 1)));
            }
            i = i + 1;
        }
        assert(values@.take(i as int) =~= values@);
    }

    /// The fingerprint of the message.
    pub fn fingerprint(&self) -> (f: Fingerprint)
        ensures
            f.bytes@ == blake3_digest(self@),
    {
        Fingerprint { bytes: blake3_hash(&self.bytes) }
    }
}

/// The reversed bytes of a sixty-four bit number determine it.
pub proof fn be_bytes_determine(x: u64, y: u64)
    requires
        be_bytes(x) == be_bytes(y),
    ensures
        x == y,
{
    let (a, b) = (le_bytes(x), le_bytes(y));
    low_bytes_len(x as int, 8);
    low_bytes_len(y as int, 8);
    assert forall|i: int| 0 <= i < 8 implies a[i] == b[i] by {
        assert(a.reverse()[7 - i] == b.reverse()[7 - i]);
    }
    assert(a =~= b);
    le_bytes_determine(x, y);
}

/// Numbers with the same bytes are the same, place by place.
pub proof fn all_le_bytes_determine(a: Seq<u64>, b: Seq<u64>)
    requires
        a.len() == b.len(),
        all_le_bytes(a) == all_le_bytes(b),
    ensures
        a == b,
    decreases a.len(),
{
    if a.len() > 0 {
        let x = le_bytes(a.last());
        let y = le_bytes(b.last());
        low_bytes_len(a.last() as int, 8);
        low_bytes_len(b.last() as int, 8);
        let p = all_le_bytes(a.drop_last());
        let q = all_le_bytes(b.drop_last());
        assert((p + x).len() == (q + y).len());
        assert(p.len() == q.len());
        assert(p =~= (p + x).take(p.len() as int));
        assert(q =~= (q + y).take(q.len() as int));
        assert(x =~= (p + x).subrange(p.len() as int, (p + x).len() as int));
        assert(y =~= (q + y).subrange(q.len() as int, (q + y).len() as int));
        le_bytes_determine(a.last(), b.last());
        all_le_bytes_determine(a.drop_last(), b.drop_last());
        assert(a =~= a.drop_last().push(a.last()));
        assert(b =~= b.drop_last().push(b.last()));
    } else {
        assert(a =~= b);
    }
}

} // verus!
