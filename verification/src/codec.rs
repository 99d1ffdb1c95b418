//! The ABI codec: 32-byte right-aligned words, big-endian unsigned integers,
//! zero-extended addresses, a cursor-based reader and an appending writer.

use vstd::prelude::*;
use vstd::pervasive::VecAdditionalExecFns;

verus! {

/// The number that a big-endian byte string denotes in base 256.
pub open spec fn word_value(s: Seq<u8>) -> nat
    decreases s.len(),
{
    if s.len() == 0 {
        0
    } else {
        word_value(s.drop_last()) * 256nat + s.last() as nat
    }
}

/// 256 raised to `n`.
pub open spec fn pow256(n: nat) -> nat
    decreases n,
{
    if n == 0 {
        1
    } else {
        256 * pow256((n - 1) as nat)
    }
}

/// A byte string of length `n` denotes a number below `256^n`.
pub proof fn lemma_word_value_bound(s: Seq<u8>)
    ensures
        word_value(s) < pow256(s.len()),
    decreases s.len(),
{
    if s.len() == 0 {
    } else {
        lemma_word_value_bound(s.drop_last());
    }
}

/// `256^n` grows with `n`.
pub proof fn lemma_pow256_increases(i: nat, j: nat)
    requires
        i <= j,
    ensures
        pow256(i) <= pow256(j),
    decreases j,
{
    if i < j {
        lemma_pow256_increases(i, (j - 1) as nat);
        assert(pow256(j) == 256 * pow256((j - 1) as nat));
    }
}

/// Prepending a byte adds its value at the highest position.
pub proof fn lemma_word_value_prepend(b: u8, s: Seq<u8>)
    ensures
        word_value(seq![b].add(s)) == b * pow256(s.len()) + word_value(s),
    decreases s.len(),
{
    if s.len() == 0 {
        assert(seq![b].add(s) =~= seq![b]);
        assert(seq![b].drop_last() =~= Seq::<u8>::empty());
        assert(word_value(seq![b]) == word_value(seq![b].drop_last()) * 256nat + b as nat);
        assert(word_value(seq![b].drop_last()) == 0);
        assert(word_value(seq![b]) == b);
        assert(pow256(s.len()) == 1);
        assert(word_value(s) == 0);
    } else {
        let n = s.len();
        lemma_word_value_prepend(b, s.drop_last());
        assert(seq![b].add(s).drop_last() =~= seq![b].add(s.drop_last()));
        assert(seq![b].add(s).last() == s.last());
        assert(word_value(seq![b].add(s)) == word_value(seq![b].add(s.drop_last())) * 256nat
            + s.last() as nat);
        assert(word_value(seq![b].add(s.drop_last())) * 256nat == (b * pow256((n - 1) as nat)
            + word_value(s.drop_last())) * 256nat);
        assert((b * pow256((n - 1) as nat) + word_value(s.drop_last())) * 256nat == (b * pow256(
            (n - 1) as nat)) * 256nat + word_value(s.drop_last()) * 256nat) by (nonlinear_arith);
        assert((b * pow256((n - 1) as nat)) * 256nat == b * pow256(n)) by {
            assert((b * pow256((n - 1) as nat)) * 256nat == b * (pow256((n - 1) as nat) * 256nat))
                by (nonlinear_arith);
            assert(pow256((n - 1) as nat) * 256nat == pow256(n));
        }
        assert(word_value(s.drop_last()) * 256nat + s.last() as nat == word_value(s));
    }
}

/// `256^16` is one more than the largest amount the ledger's type holds.
pub proof fn lemma_pow256_16()
    ensures
        pow256(16) == 0x100000000000000000000000000000000,
{
    reveal_with_fuel(pow256, 17);
}

/// `s` is the 32-byte ABI word that right-aligns the number `v`:
/// sixteen leading zero bytes, then `v` big-endian.
pub open spec fn is_amount_word(s: Seq<u8>, v: nat) -> bool {
    &&& s.len() == 32
    &&& (forall|i: int| 0 <= i < 16 ==> s[i] == 0)
    &&& word_value(s.subrange(16, 32)) == v
}

/// Encode `v` as `n` big-endian bytes.
fn encode_be(v: u128, n: usize) -> (r: Vec<u8>)
    requires
        n <= 16,
        (v as nat) < pow256(n as nat),
    ensures
        r@.len() == n,
        word_value(r@) == v as nat,
{
    let mut out: Vec<u8> = vec![0u8; n];
    let mut tmp: u128 = v;
    let mut k: usize = 0;
    proof {
        assert(out@.subrange(n as int, n as int) =~= Seq::<u8>::empty());
        assert(word_value(out@.subrange(n as int, n as int)) == 0);
        assert(pow256(0) == 1);
    }
    while k < n
        invariant
            0 <= k <= n,
            n <= 16,
            out@.len() == n,
            (v as nat) < pow256(n as nat),
            word_value(out@.subrange(n - k, n as int)) + tmp * pow256(k as nat) == v,
        decreases n - k,
    {
        let b: u8 = (tmp % 256) as u8;
        let ghost old_out = out@;
        out.set(n - 1 - k, b);
        proof {
            assert(out@ == old_out.update(n - 1 - k as int, b));
            assert(out@.subrange(n - (k + 1), n as int) =~= seq![b].add(
                old_out.subrange(n - k as int, n as int)));
            lemma_word_value_prepend(b, old_out.subrange(n - k as int, n as int));
            assert((tmp / 256) * pow256((k + 1) as nat) + b * pow256(k as nat) == tmp * pow256(
                k as nat)) by {
                assert(pow256((k + 1) as nat) == 256 * pow256(k as nat));
                assert((tmp / 256) * (256 * pow256(k as nat)) + (tmp % 256) * pow256(k as nat)
                    == ((tmp / 256) * 256 + tmp % 256) * pow256(k as nat)) by (nonlinear_arith);
            }
        }
        tmp = tmp / 256;
        k = k + 1;
    }
    proof {
        assert(tmp == 0) by {
            if tmp >= 1 {
                assert(tmp * pow256(n as nat) >= pow256(n as nat)) by (nonlinear_arith)
                    requires tmp >= 1;
            }
        }
        assert(out@.subrange(n - n, n as int) =~= out@);
    }
    out
}

/// Encode an amount as a right-aligned big-endian 32-byte word.
pub fn encode_amount_bytes(v: u128) -> (r: Vec<u8>)
    ensures
        is_amount_word(r@, v as nat),
{
    proof {
        lemma_pow256_16();
    }
    let mut out: Vec<u8> = vec![0u8; 16];
    let mut tail = encode_be(v, 16);
    let ghost tail0 = tail@;
    out.append(&mut tail);
    proof {
        assert(out@.subrange(16, 32) =~= tail0);
        assert(forall|i: int| 0 <= i < 16 ==> out@[i] == 0);
    }
    out
}

/// A 20-byte external-chain account address.
#[derive(Clone, Copy, Debug, PartialEq, Eq)]
pub struct Address(pub [u8; 20]);

impl View for Address {
    type V = Seq<u8>;

    open spec fn view(&self) -> Seq<u8> {
        self.0@
    }
}

/// Whether two addresses hold the same bytes.
pub fn addr_eq(a: &Address, b: &Address) -> (r: bool)
    ensures
        r <==> a@ == b@,
{
    let mut i: usize = 0;
    while i < 20
        invariant
            0 <= i <= 20,
            forall|j: int| 0 <= j < i ==> a.0@[j] == b.0@[j],
        decreases 20 - i,
    {
        if a.0[i] != b.0[i] {
            return false;
        }
        i = i + 1;
    }
    proof {
        assert(a.0@ =~= b.0@);
    }
    true
}

/// An address zero-extended to a 32-byte word.
pub open spec fn address_topic(a: Seq<u8>) -> Seq<u8> {
    Seq::new(32, |i: int| if i < 12 { 0u8 } else { a[i - 12] })
}

/// Zero-extend an address to a 32-byte word.
pub fn address_to_topic(a: &Address) -> (r: [u8; 32])
    ensures
        r@ == address_topic(a@),
{
    let mut out: [u8; 32] = [0; 32];
    let mut j: usize = 0;
    while j < 20
        invariant
            0 <= j <= 20,
            out@.len() == 32,
            forall|i: int| 0 <= i < 12 ==> out@[i] == 0,
            forall|i: int| 0 <= i < j ==> out@[12 + i] == a.0@[i],
            forall|i: int| 12 + j <= i < 32 ==> out@[i] == 0,
        decreases 20 - j,
    {
        out[12 + j] = a.0[j];
        j = j + 1;
    }
    proof {
        assert(out@ =~= address_topic(a@));
    }
    out
}

/// The codec's failure kinds: reading past the buffer end, or an integer
/// wider than the ledger's amount type.
#[derive(Clone, Copy, Debug, PartialEq, Eq)]
pub enum CodecError {
    OutOfBounds,
    ValueTooLarge,
}

/// Whether all of `s[start..start + n]` is zero.
fn all_zero(s: &[u8], start: usize, n: usize) -> (r: bool)
    requires
        start + n <= s@.len(),
    ensures
        r <==> (forall|i: int| start <= i < start + n ==> s@[i] == 0),
{
    let slen = s.len();
    let mut j: usize = 0;
    while j < n
        invariant
            0 <= j <= n,
            start + n <= s@.len(),
            s@.len() == slen,
            forall|i: int| start <= i < start + j ==> s@[i] == 0,
        decreases n - j,
    {
        if s[start + j] != 0 {
            return false;
        }
        j = j + 1;
    }
    true
}

/// Read `n` big-endian bytes of `s` at `start` as a number.
fn read_be(s: &[u8], start: usize, n: usize) -> (r: u128)
    requires
        start + n <= s@.len(),
        n <= 16,
    ensures
        r as nat == word_value(s@.subrange(start as int, start + n)),
{
    let slen = s.len();
    let mut acc: u128 = 0;
    let mut i: usize = 0;
    proof {
        assert(s@.subrange(start as int, start as int) =~= Seq::<u8>::empty());
        assert(word_value(s@.subrange(start as int, start as int)) == 0);
    }
    while i < n
        invariant
            0 <= i <= n,
            n <= 16,
            start + n <= s@.len(),
            s@.len() == slen,
            acc as nat == word_value(s@.subrange(start as int, start + i)),
        decreases n - i,
    {
        let b = s[start + i];
        proof {
            lemma_word_value_bound(s@.subrange(start as int, start + i));
            lemma_pow256_increases(i as nat, 15);
            lemma_pow256_16();
            assert(pow256(16) == 256 * pow256(15));
            assert(s@.subrange(start as int, start + (i + 1)).drop_last() =~= s@.subrange(
                start as int, start + i));
            assert(s@.subrange(start as int, start + (i + 1)).last() == s@[start + i]);
            assert(word_value(s@.subrange(start as int, start + (i + 1))) == word_value(
                s@.subrange(start as int, start + i)) * 256nat + s@[start + i] as nat);
        }
        acc = acc * 256 + (b as u128);
        i = i + 1;
    }
    acc
}

/// A cursor over ABI-encoded input bytes. Reads advance the cursor; a read
/// past the end of the buffer fails and leaves the cursor in place.
pub struct EvmDataReader<'a> {
    pub input: &'a [u8],
    pub cursor: usize,
}

impl<'a> EvmDataReader<'a> {
    /// The cursor never passes the end of the buffer.
    pub open spec fn wf(&self) -> bool {
        self.cursor <= self.input@.len()
    }

    /// How many bytes remain past the cursor.
    pub open spec fn spec_remaining(&self) -> int {
        self.input@.len() - self.cursor
    }

    pub fn new(input: &'a [u8]) -> (r: Self)
        ensures
            r.input@ == input@,
            r.cursor == 0,
            r.wf(),
    {
        EvmDataReader { input, cursor: 0 }
    }

    /// Read the 4-byte action selector.
    pub fn read_selector(&mut self) -> (r: Result<u32, CodecError>)
        requires
            old(self).wf(),
        ensures
            final(self).input@ == old(self).input@,
            final(self).wf(),
            match r {
                Ok(sel) => {
                    &&& old(self).spec_remaining() >= 4
                    &&& sel as nat == word_value(old(self).input@.subrange(
                        old(self).cursor as int,
                        old(self).cursor + 4,
                    ))
                    &&& final(self).cursor == old(self).cursor + 4
                },
                Err(e) => {
                    &&& e == CodecError::OutOfBounds
                    &&& old(self).spec_remaining() < 4
                    &&& final(self).cursor == old(self).cursor
                },
            },
    {
        if self.input.len() - self.cursor < 4 {
            return Err(CodecError::OutOfBounds);
        }
        let v = read_be(self.input, self.cursor, 4);
        proof {
            lemma_word_value_bound(self.input@.subrange(self.cursor as int, self.cursor + 4));
            reveal_with_fuel(pow256, 5);
            assert(pow256(4) == 0x100000000);
        }
        let sel = v as u32;
        self.cursor = self.cursor + 4;
        Ok(sel)
    }

    /// Read one 32-byte argument word as an unsigned amount.
    pub fn read_amount(&mut self) -> (r: Result<u128, CodecError>)
        requires
            old(self).wf(),
        ensures
            final(self).input@ == old(self).input@,
            final(self).wf(),
            match r {
                Ok(v) => {
                    &&& old(self).spec_remaining() >= 32
                    &&& is_amount_word(
                        old(self).input@.subrange(old(self).cursor as int, old(self).cursor + 32),
                        v as nat,
                    )
                    &&& final(self).cursor == old(self).cursor + 32
                },
                Err(e) => {
                    &&& final(self).cursor == old(self).cursor
                    &&& (e == CodecError::OutOfBounds <==> old(self).spec_remaining() < 32)
                    &&& (e == CodecError::ValueTooLarge <==> old(self).spec_remaining() >= 32
                        && exists|i: int|
                        old(self).cursor <= i < old(self).cursor + 16 && old(self).input@[i] != 0)
                },
            },
    {
        if self.input.len() - self.cursor < 32 {
            return Err(CodecError::OutOfBounds);
        }
        if !all_zero(self.input, self.cursor, 16) {
            return Err(CodecError::ValueTooLarge);
        }
        let v = read_be(self.input, self.cursor + 16, 16);
        proof {
            let w = self.input@.subrange(self.cursor as int, self.cursor + 32);
            assert(w.subrange(16, 32) =~= self.input@.subrange(
                self.cursor + 16,
                self.cursor + 32,
            ));
            assert(forall|i: int| 0 <= i < 16 ==> w[i] == 0);
        }
        self.cursor = self.cursor + 32;
        Ok(v)
    }

    /// Read one 32-byte argument word as a zero-extended address: the low
    /// 20 bytes of the word.
    pub fn read_address(&mut self) -> (r: Result<Address, CodecError>)
        requires
            old(self).wf(),
        ensures
            final(self).input@ == old(self).input@,
            final(self).wf(),
            match r {
                Ok(a) => {
                    &&& old(self).spec_remaining() >= 32
                    &&& a@ == old(self).input@.subrange(
                        old(self).cursor + 12,
                        old(self).cursor + 32,
                    )
                    &&& final(self).cursor == old(self).cursor + 32
                },
                Err(e) => {
                    &&& e == CodecError::OutOfBounds
                    &&& old(self).spec_remaining() < 32
                    &&& final(self).cursor == old(self).cursor
                },
            },
    {
        if self.input.len() - self.cursor < 32 {
            return Err(CodecError::OutOfBounds);
        }
        let ilen = self.input.len();
        let mut out: [u8; 20] = [0; 20];
        let mut j: usize = 0;
        while j < 20
            invariant
                0 <= j <= 20,
                out@.len() == 20,
                self.cursor + 32 <= self.input@.len(),
                self.input@.len() == ilen,
                forall|i: int| 0 <= i < j ==> out@[i] == self.input@[self.cursor + 12 + i],
            decreases 20 - j,
        {
            out[j] = self.input[self.cursor + 12 + j];
            j = j + 1;
        }
        proof {
            assert(out@ =~= self.input@.subrange(self.cursor + 12, self.cursor + 32));
        }
        self.cursor = self.cursor + 32;
        Ok(Address(out))
    }
}

/// Accumulates ABI words in call order and finalizes to one byte buffer.
pub struct EvmDataWriter {
    pub data: Vec<u8>,
}

impl EvmDataWriter {
    pub fn new() -> (r: Self)
        ensures
            r.data@.len() == 0,
    {
        EvmDataWriter { data: Vec::new() }
    }

    /// Append the 4-byte big-endian form of a selector.
    pub fn write_selector(self, selector: u32) -> (r: Self)
        ensures
            r.data@.len() == self.data@.len() + 4,
            r.data@.subrange(0, self.data@.len() as int) == self.data@,
            word_value(r.data@.subrange(self.data@.len() as int, self.data@.len() as int + 4))
                == selector as nat,
    {
        proof {
            reveal_with_fuel(pow256, 5);
            assert(pow256(4) == 0x100000000);
        }
        let mut bytes = encode_be(selector as u128, 4);
        let ghost b0 = bytes@;
        let mut data = self.data;
        let ghost d0 = data@;
        data.append(&mut bytes);
        proof {
            assert(data@.subrange(0, d0.len() as int) =~= d0);
            assert(data@.subrange(d0.len() as int, d0.len() as int + 4) =~= b0);
        }
        EvmDataWriter { data }
    }

    /// Append one 32-byte word holding a right-aligned amount.
    pub fn write_amount(self, v: u128) -> (r: Self)
        ensures
            r.data@.len() == self.data@.len() + 32,
            r.data@.subrange(0, self.data@.len() as int) == self.data@,
            is_amount_word(
                r.data@.subrange(self.data@.len() as int, self.data@.len() as int + 32),
                v as nat,
            ),
    {
        let mut bytes = encode_amount_bytes(v);
        let ghost b0 = bytes@;
        let mut data = self.data;
        let ghost d0 = data@;
        data.append(&mut bytes);
        proof {
            assert(data@.subrange(0, d0.len() as int) =~= d0);
            assert(data@.subrange(d0.len() as int, d0.len() as int + 32) =~= b0);
        }
        EvmDataWriter { data }
    }

    /// Append one 32-byte word holding a zero-extended address.
    pub fn write_address(self, a: &Address) -> (r: Self)
        ensures
            r.data@.len() == self.data@.len() + 32,
            r.data@.subrange(0, self.data@.len() as int) == self.data@,
            r.data@.subrange(self.data@.len() as int, self.data@.len() as int + 32) == address_topic(a@),
    {
        let word = address_to_topic(a);
        let mut data = self.data;
        let ghost d0 = data@;
        data.extend_from_slice(word.as_slice());
        proof {
            assert(data@.subrange(0, d0.len() as int) =~= d0);
            assert(data@.subrange(d0.len() as int, d0.len() as int + 32) =~= word@);
        }
        EvmDataWriter { data }
    }

    /// Finalize to the accumulated byte buffer.
    pub fn build(self) -> (r: Vec<u8>)
        ensures
            r@ == self.data@,
    {
        self.data
    }
}

} // verus!
