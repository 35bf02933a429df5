//! SHA-1, fed in pieces, for checking downloaded files against the hashes
//! in Mojang metadata.
use vstd::prelude::*;

use crate::text::{format_hex, hex_digits, push_all, string_of};

verus! {

/// The five state words of SHA-1.
pub type Words = (u32, u32, u32, u32, u32);

/// Addition modulo 2^32.
pub open spec fn wadd(x: u32, y: u32) -> u32 {
    vstd::wrapping::u32_specs::wrapping_add(x, y)
}

/// Rotation left by one bit.
pub open spec fn rotl1(x: u32) -> u32 {
    (x << 1u32) | (x >> 31u32)
}

/// Rotation left by five bits.
pub open spec fn rotl5(x: u32) -> u32 {
    (x << 5u32) | (x >> 27u32)
}

/// Rotation left by thirty bits.
pub open spec fn rotl30(x: u32) -> u32 {
    (x << 30u32) | (x >> 2u32)
}

/// Big-endian word `i` of a block.
pub open spec fn be_word(b: Seq<u8>, i: int) -> u32 {
    ((b[4 * i] as u32) << 24u32) | ((b[4 * i + 1] as u32) << 16u32) | ((b[4 * i + 2] as u32) << 8u32) | (b[4
        * i + 3] as u32)
}

/// Word `t` of the message schedule of a block.
pub open spec fn schedule(b: Seq<u8>, t: int) -> u32
    decreases t,
{
    if t < 16 {
        if t < 0 {
            0
        } else {
            be_word(b, t)
        }
    } else {
        rotl1(schedule(b, t - 3) ^ schedule(b, t - 8) ^ schedule(b, t - 14) ^ schedule(b, t - 16))
    }
}

/// The round function and constant of round `t`.
pub open spec fn f_k(t: int, b: u32, c: u32, d: u32) -> (u32, u32) {
    if t <= 19 {
        ((b & c) | ((!b) & d), 0x5a827999u32)
    } else if t <= 39 {
        (b ^ c ^ d, 0x6ed9eba1u32)
    } else if t <= 59 {
        ((b & c) | (b & d) | (c & d), 0x8f1bbcdcu32)
    } else {
        (b ^ c ^ d, 0xca62c1d6u32)
    }
}

/// One round of the compression function.
pub open spec fn round(s: Words, t: int, w: u32) -> Words {
    let fk = f_k(t, s.1, s.2, s.3);
    let temp = wadd(wadd(wadd(wadd(rotl5(s.0), fk.0), s.4), fk.1), w);
    (temp, s.0, rotl30(s.1), s.2, s.3)
}

/// The working words after the first `t` rounds on a block.
pub open spec fn rounds(s: Words, b: Seq<u8>, t: int) -> Words
    decreases t,
{
    if t <= 0 {
        s
    } else {
        round(rounds(s, b, t - 1), t - 1, schedule(b, t - 1))
    }
}

/// The state after compressing one 64-byte block.
pub open spec fn compress(h: Words, b: Seq<u8>) -> Words {
    let r = rounds(h, b, 80);
    (wadd(h.0, r.0), wadd(h.1, r.1), wadd(h.2, r.2), wadd(h.3, r.3), wadd(h.4, r.4))
}

/// The state after compressing the 64-byte blocks of `msg` in order.
pub open spec fn compress_all(h: Words, msg: Seq<u8>) -> Words
    decreases msg.len(),
{
    if msg.len() < 64 {
        h
    } else {
        compress(compress_all(h, msg.take(msg.len() - 64)), msg.skip(msg.len() - 64))
    }
}

/// The initial SHA-1 state.
pub open spec fn initial_words() -> Words {
    (0x67452301u32, 0xefcdab89u32, 0x98badcfeu32, 0x10325476u32, 0xc3d2e1f0u32)
}

/// The big-endian bytes of a 64-bit number.
pub open spec fn be64(n: u64) -> Seq<u8> {
    seq![
        (n >> 56u64) as u8,
        (n >> 48u64) as u8,
        (n >> 40u64) as u8,
        (n >> 32u64) as u8,
        (n >> 24u64) as u8,
        (n >> 16u64) as u8,
        (n >> 8u64) as u8,
        n as u8,
    ]
}

/// How many zero bytes padding puts after the `0x80` byte.
pub open spec fn pad_zeros(len: nat) -> nat {
    ((119 - (len % 64) as int) % 64) as nat
}

/// A message padded as SHA-1 pads it: a `0x80` byte, zero bytes up to 56
/// modulo 64, and the length in bits (modulo 2^64) in big-endian order.
pub open spec fn padded(msg: Seq<u8>) -> Seq<u8> {
    msg + seq![0x80u8] + Seq::new(pad_zeros(msg.len()), |i: int| 0u8) + be64(
        ((msg.len() * 8) % 0x1_0000_0000_0000_0000) as u64,
    )
}

/// The SHA-1 digest words of a message.
pub open spec fn sha1_words(msg: Seq<u8>) -> Words {
    compress_all(initial_words(), padded(msg))
}

/// The SHA-1 digest of a message in lower-case hexadecimal.
pub open spec fn sha1_hex_spec(msg: Seq<u8>) -> Seq<char> {
    let h = sha1_words(msg);
    hex_digits(h.0 as nat, 8) + hex_digits(h.1 as nat, 8) + hex_digits(h.2 as nat, 8) + hex_digits(
        h.3 as nat,
        8,
    ) + hex_digits(h.4 as nat, 8)
}

proof fn lemma_compress_all_concat(h: Words, x: Seq<u8>, y: Seq<u8>)
    requires
        x.len() % 64 == 0,
        y.len() % 64 == 0,
    ensures
        compress_all(h, x + y) == compress_all(compress_all(h, x), y),
    decreases y.len(),
{
    if y.len() == 0 {
        assert(x + y =~= x);
    } else {
        let z = x + y;
        let y2 = y.take(y.len() - 64);
        assert(z.take(z.len() - 64) =~= x + y2);
        assert(z.skip(z.len() - 64) =~= y.skip(y.len() - 64));
        lemma_compress_all_concat(h, x, y2);
    }
}

fn be_word_at(b: &[u8], i: usize) -> (w: u32)
    requires
        4 * i + 3 < b.len(),
    ensures
        w == be_word(b@, i as int),
{
    ((b[4 * i] as u32) << 24u32) | ((b[4 * i + 1] as u32) << 16u32) | ((b[4 * i + 2] as u32) << 8u32)
        | (b[4 * i + 3] as u32)
}

/// Compresses one 64-byte block into the state.
fn compress_block(h: Words, block: &[u8]) -> (r: Words)
    requires
        block.len() == 64,
    ensures
        r == compress(h, block@),
{
    let mut w: Vec<u32> = Vec::new();
    let mut i: usize = 0;
    while i < 16
        invariant
            i <= 16,
            block.len() == 64,
            w@.len() == i,
            forall|k: int| 0 <= k < i ==> w@[k] == schedule(block@, k),
        decreases 16 - i,
    {
        w.push(be_word_at(block, i));
        i += 1;
    }
    while i < 80
        invariant
            16 <= i <= 80,
            w@.len() == i,
            forall|k: int| 0 <= k < i ==> w@[k] == schedule(block@, k),
        decreases 80 - i,
    {
        let x = w[i - 3] ^ w[i - 8] ^ w[i - 14] ^ w[i - 16];
        let v = (x << 1u32) | (x >> 31u32);
        assert(v == schedule(block@, i as int));
        w.push(v);
        i += 1;
    }
    let (mut a, mut b, mut c, mut d, mut e) = h;
    let mut t: usize = 0;
    while t < 80
        invariant
            t <= 80,
            w@.len() == 80,
            forall|k: int| 0 <= k < 80 ==> w@[k] == schedule(block@, k),
            (a, b, c, d, e) == rounds(h, block@, t as int),
        decreases 80 - t,
    {
        let (f, k): (u32, u32) = if t <= 19 {
            ((b & c) | ((!b) & d), 0x5a827999u32)
        } else if t <= 39 {
            (b ^ c ^ d, 0x6ed9eba1u32)
        } else if t <= 59 {
            ((b & c) | (b & d) | (c & d), 0x8f1bbcdcu32)
        } else {
            (b ^ c ^ d, 0xca62c1d6u32)
        };
        let r5 = (a << 5u32) | (a >> 27u32);
        let temp = r5.wrapping_add(f).wrapping_add(e).wrapping_add(k).wrapping_add(w[t]);
        e = d;
        d = c;
        c = (b << 30u32) | (b >> 2u32);
        b = a;
        a = temp;
        t += 1;
    }
    (h.0.wrapping_add(a), h.1.wrapping_add(b), h.2.wrapping_add(c), h.3.wrapping_add(d), h.4.wrapping_add(e))
}

/// The state of a computation matches the bytes `data` fed to it: whole
/// blocks compressed into `h`, the rest held in `buffer`, the length counted
/// modulo 2^64.
pub open spec fn state_matches(h: Words, len_bytes: u64, buffer: Seq<u8>, data: Seq<u8>) -> bool {
    let n = data.len() - buffer.len();
    &&& buffer.len() < 64
    &&& n >= 0
    &&& n % 64 == 0
    &&& buffer == data.skip(n)
    &&& h == compress_all(initial_words(), data.take(n))
    &&& len_bytes == data.len() % 0x1_0000_0000_0000_0000
}

/// An incremental SHA-1 computation.
pub struct Sha1 {
    h: (u32, u32, u32, u32, u32),
    len_bytes: u64,
    buffer: Vec<u8>,
    data: Ghost<Seq<u8>>,
}

impl Sha1 {
    /// The bytes fed so far.
    pub closed spec fn fed(&self) -> Seq<u8> {
        self.data@
    }

    /// Every computation's state matches the bytes fed to it.
    #[verifier::type_invariant]
    spec fn well_formed(self) -> bool {
        state_matches(self.h, self.len_bytes, self.buffer@, self.data@)
    }

    /// A computation that has been fed nothing.
    pub fn new() -> (s: Self)
        ensures
            s.fed() == Seq::<u8>::empty(),
    {
        let buffer: Vec<u8> = Vec::new();
        proof {
            let e = Seq::<u8>::empty();
            assert(e.skip(0) =~= buffer@);
            assert(e.take(0) =~= e);
        }
        Sha1 {
            h: (0x67452301u32, 0xefcdab89u32, 0x98badcfeu32, 0x10325476u32, 0xc3d2e1f0u32),
            len_bytes: 0,
            buffer,
            data: Ghost(Seq::empty()),
        }
    }

    /// Feeds more bytes.
    pub fn update(&mut self, data: &[u8])
        ensures
            final(self).fed() == old(self).fed() + data@,
    {
        proof {
            use_type_invariant(&*self);
        }
        let ghost start = self.data@;
        let mut h = self.h;
        let mut len_bytes = self.len_bytes;
        let mut buffer: Vec<u8> = Vec::new();
        push_all_bytes(&mut buffer, self.buffer.as_slice());
        assert(buffer@ =~= self.buffer@);
        let ghost mut fed = start;
        let mut i: usize = 0;
        while i < data.len()
            invariant
                i <= data.len(),
                state_matches(h, len_bytes, buffer@, fed),
                fed == start + data@.take(i as int),
            decreases data.len() - i,
        {
            let ghost before = fed;
            let ghost n = before.len() - buffer@.len();
            buffer.push(data[i]);
            let ghost after = before.push(data@[i as int]);
            proof {
                assert(after.skip(n) =~= buffer@);
                assert(after.take(n) =~= before.take(n));
                assert(len_bytes + 1 < 0x1_0000_0000_0000_0001);
                assert((after.len() % 0x1_0000_0000_0000_0000) == (if len_bytes + 1
                    == 0x1_0000_0000_0000_0000 {
                    0
                } else {
                    len_bytes + 1
                })) by (nonlinear_arith)
                    requires
                        len_bytes == before.len() % 0x1_0000_0000_0000_0000,
                        after.len() == before.len() + 1,
                ;
            }
            len_bytes = len_bytes.wrapping_add(1);
            if buffer.len() == 64 {
                let mut block: Vec<u8> = Vec::new();
                std::mem::swap(&mut block, &mut buffer);
                h = compress_block(h, block.as_slice());
                proof {
                    let m = n + 64;
                    assert(after.take(m).take(m - 64) =~= after.take(n));
                    assert(after.take(m).skip(m - 64) =~= block@);
                    assert(after.skip(m) =~= Seq::<u8>::empty());
                }
            }
            proof {
                fed = after;
            }
            assert(fed =~= start + data@.take(i + 1));
            i += 1;
        }
        assert(data@.take(data.len() as int) =~= data@);
        *self = Sha1 { h, len_bytes, buffer, data: Ghost(fed) };
    }

    /// The digest of the bytes fed, in lower-case hexadecimal.
    pub fn finalize_hex(self) -> (hex: String)
        ensures
            hex@ == sha1_hex_spec(self.fed()),
    {
        proof {
            use_type_invariant(&self);
        }
        let ghost msg = self.data@;
        let ghost held_bytes = self.buffer@;
        let ghost n = msg.len() - held_bytes.len();
        let h0_words = self.h;
        let len_bytes = self.len_bytes;
        let mut buffer: Vec<u8> = Vec::new();
        push_all_bytes(&mut buffer, self.buffer.as_slice());
        assert(buffer@ =~= held_bytes);
        let bit_len = len_bytes.wrapping_mul(8);
        proof {
            assert(bit_len == ((msg.len() * 8) % 0x1_0000_0000_0000_0000)) by (nonlinear_arith)
                requires
                    len_bytes == msg.len() % 0x1_0000_0000_0000_0000,
                    bit_len == (len_bytes * 8) % 0x1_0000_0000_0000_0000,
            ;
        }
        let held = buffer.len();
        let zeros: usize = if held < 56 { 55 - held } else { 119 - held };
        proof {
            assert(zeros == pad_zeros(msg.len())) by (nonlinear_arith)
                requires
                    held == msg.len() - n,
                    held < 64,
                    n % 64 == 0,
                    n >= 0,
                    zeros == (if held < 56 { 55 - held } else { 119 - held }),
            ;
        }
        buffer.push(0x80u8);
        let ghost zeros_start = buffer@.len();
        let mut k: usize = 0;
        while k < zeros
            invariant
                k <= zeros,
                zeros < 64,
                zeros_start == held_bytes.len() + 1,
                buffer@ == held_bytes + seq![0x80u8] + Seq::new(k as nat, |i: int| 0u8),
            decreases zeros - k,
        {
            buffer.push(0u8);
            k += 1;
            assert(buffer@ =~= held_bytes + seq![0x80u8] + Seq::new(k as nat, |i: int| 0u8));
        }
        let tail: Vec<u8> = vec![
            (bit_len >> 56u64) as u8,
            (bit_len >> 48u64) as u8,
            (bit_len >> 40u64) as u8,
            (bit_len >> 32u64) as u8,
            (bit_len >> 24u64) as u8,
            (bit_len >> 16u64) as u8,
            (bit_len >> 8u64) as u8,
            bit_len as u8,
        ];
        push_all_bytes(&mut buffer, tail.as_slice());
        let ghost rest = buffer@;
        assert(padded(msg) =~= msg.take(n) + rest);
        assert(rest.len() == 64 || rest.len() == 128);
        let ghost h0 = h0_words;
        let mut h = h0_words;
        let first = slice_bytes(buffer.as_slice(), 0, 64);
        h = compress_block(h, first.as_slice());
        proof {
            let once = rest.take(64);
            assert(once =~= first@);
            assert(once.take(0) =~= Seq::<u8>::empty());
            assert(once.skip(0) =~= once);
            assert(compress_all(h0, Seq::<u8>::empty()) == h0);
            assert(compress_all(h0, once) == compress(h0, once));
        }
        if buffer.len() == 128 {
            let second = slice_bytes(buffer.as_slice(), 64, 128);
            h = compress_block(h, second.as_slice());
            assert(rest.skip(64) =~= second@);
        } else {
            assert(rest.take(64) =~= rest);
        }
        proof {
            lemma_compress_all_concat(initial_words(), msg.take(n), rest);
        }
        assert(h == sha1_words(msg));
        let mut out = format_hex(h.0 as u128, 8);
        let p1 = format_hex(h.1 as u128, 8);
        push_all(&mut out, p1.as_slice());
        let p2 = format_hex(h.2 as u128, 8);
        push_all(&mut out, p2.as_slice());
        let p3 = format_hex(h.3 as u128, 8);
        push_all(&mut out, p3.as_slice());
        let p4 = format_hex(h.4 as u128, 8);
        push_all(&mut out, p4.as_slice());
        assert(out@ =~= sha1_hex_spec(msg));
        string_of(out.as_slice())
    }
}

impl Clone for Sha1 {
    /// A computation in the same state: it has been fed the same bytes.
    fn clone(&self) -> (c: Self)
        ensures
            c.fed() == self.fed(),
    {
        proof {
            use_type_invariant(self);
        }
        let mut buffer: Vec<u8> = Vec::new();
        push_all_bytes(&mut buffer, self.buffer.as_slice());
        assert(buffer@ =~= self.buffer@);
        Sha1 { h: self.h, len_bytes: self.len_bytes, buffer, data: Ghost(self.data@) }
    }
}

/// How input is split across `update` calls never changes the digest: from
/// any state that has been fed `start`, feeding `a` and then `b` leaves the
/// same bytes fed as feeding `a + b` at once, and `finalize_hex` depends on
/// the bytes fed alone.
pub proof fn lemma_split_updates_agree(start: Seq<u8>, a: Seq<u8>, b: Seq<u8>)
    ensures
        (start + a) + b == start + (a + b),
        sha1_hex_spec((start + a) + b) == sha1_hex_spec(start + (a + b)),
{
    assert((start + a) + b =~= start + (a + b));
}

fn push_all_bytes(out: &mut Vec<u8>, s: &[u8])
    ensures
        final(out)@ == old(out)@ + s@,
{
    let ghost base = out@;
    let mut k: usize = 0;
    while k < s.len()
        invariant
            k <= s.len(),
            out@ == base + s@.take(k as int),
        decreases s.len() - k,
    {
        out.push(s[k]);
        assert(out@ =~= base + s@.take(k + 1));
        k += 1;
    }
    assert(s@.take(s.len() as int) =~= s@);
}

fn slice_bytes(s: &[u8], from: usize, to: usize) -> (out: Vec<u8>)
    requires
        from <= to <= s.len(),
    ensures
        out@ == s@.subrange(from as int, to as int),
{
    let mut out: Vec<u8> = Vec::new();
    let mut k = from;
    while k < to
        invariant
            from <= k <= to <= s.len(),
            out@ == s@.subrange(from as int, k as int),
        decreases to - k,
    {
        out.push(s[k]);
        assert(out@ =~= s@.subrange(from as int, k + 1));
        k += 1;
    }
    out
}

/// The SHA-1 digest of some bytes in lower-case hexadecimal.
pub fn sha1_hex(data: &[u8]) -> (hex: String)
    ensures
        hex@ == sha1_hex_spec(data@),
{
    let mut s = Sha1::new();
    s.update(data);
    assert(s.fed() =~= data@);
    s.finalize_hex()
}

} // verus!
