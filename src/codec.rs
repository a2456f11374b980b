use vstd::prelude::*;

verus! {

/// Width of the words a checksum accumulates.
#[derive(PartialEq, Eq, Structural, Debug, Clone, Copy)]
pub enum Width {
    W8,
    W16,
    W32,
}

/// Byte order of the words a checksum accumulates.
#[derive(PartialEq, Eq, Structural, Debug, Clone, Copy)]
pub enum ByteOrder {
    Little,
    Big,
}

/// How a checksum reads the payload: XOR of fixed-width words, the last word
/// padded with zero bytes.
#[derive(PartialEq, Eq, Structural, Debug, Clone, Copy)]
pub struct ChecksumConfig {
    pub width: Width,
    pub order: ByteOrder,
}

pub open spec fn width_bytes(w: Width) -> nat {
    match w {
        Width::W8 => 1,
        Width::W16 => 2,
        Width::W32 => 4,
    }
}

pub open spec fn pow256(n: nat) -> nat
    decreases n,
{
    if n == 0 {
        1
    } else {
        256 * pow256((n - 1) as nat)
    }
}

/// The byte at `i`, or zero past either end.
pub open spec fn byte_at(s: Seq<u8>, i: int) -> nat {
    if 0 <= i < s.len() {
        s[i] as nat
    } else {
        0
    }
}

/// The `n` bytes from `start` read most significant first.
pub open spec fn be_at(s: Seq<u8>, start: int, n: nat) -> nat
    decreases n,
{
    if n == 0 {
        0
    } else {
        be_at(s, start, (n - 1) as nat) * 256 + byte_at(s, start + n - 1)
    }
}

/// The `n` bytes from `start` read least significant first.
pub open spec fn le_at(s: Seq<u8>, start: int, n: nat) -> nat
    decreases n,
{
    if n == 0 {
        0
    } else {
        le_at(s, start + 1, (n - 1) as nat) * 256 + byte_at(s, start)
    }
}

pub open spec fn word_at(s: Seq<u8>, start: int, cfg: ChecksumConfig) -> u32 {
    let n = width_bytes(cfg.width);
    (match cfg.order {
        ByteOrder::Big => be_at(s, start, n),
        ByteOrder::Little => le_at(s, start, n),
    }) as u32
}

/// XOR of the words from `start` to the end of `s`.
pub open spec fn checksum_from(s: Seq<u8>, cfg: ChecksumConfig, start: int) -> u32
    decreases s.len() - start,
{
    let w = width_bytes(cfg.width) as int;
    if start >= s.len() || start < 0 || w <= 0 {
        0
    } else if start + w >= s.len() {
        word_at(s, start, cfg)
    } else {
        word_at(s, start, cfg) ^ checksum_from(s, cfg, start + w)
    }
}

pub open spec fn checksum(s: Seq<u8>, cfg: ChecksumConfig) -> u32 {
    checksum_from(s, cfg, 0)
}

/// Big-endian bytes of a 32-bit value.
pub open spec fn be32(x: u32) -> Seq<u8> {
    seq![
        (x / 16777216) as u8,
        ((x / 65536) % 256) as u8,
        ((x / 256) % 256) as u8,
        (x % 256) as u8,
    ]
}

pub proof fn lemma_be_bound(s: Seq<u8>, start: int, n: nat)
    ensures
        be_at(s, start, n) < pow256(n),
    decreases n,
{
    if n > 0 {
        lemma_be_bound(s, start, (n - 1) as nat);
    }
}

pub proof fn lemma_le_bound(s: Seq<u8>, start: int, n: nat)
    ensures
        le_at(s, start, n) < pow256(n),
    decreases n,
{
    if n > 0 {
        lemma_le_bound(s, start + 1, (n - 1) as nat);
    }
}

proof fn lemma_pow256_values()
    ensures
        pow256(3) == 16777216,
        pow256(4) == 4294967296,
{
    assert(pow256(0) == 1);
    assert(pow256(1) == 256);
    assert(pow256(2) == 65536);
    assert(pow256(3) == 16777216);
    assert(pow256(4) == 4294967296);
}

proof fn lemma_pow256_mono(a: nat, b: nat)
    requires
        a <= b,
    ensures
        pow256(a) <= pow256(b),
    decreases b,
{
    if a < b {
        lemma_pow256_mono(a, (b - 1) as nat);
    }
}

/// Four bytes written as `be32(x)` read back as `x`.
pub proof fn lemma_be32_read(s: Seq<u8>, k: int, x: u32)
    requires
        0 <= k,
        k + 4 <= s.len(),
        s.subrange(k, k + 4) == be32(x),
    ensures
        be_at(s, k, 4) == x as nat,
{
    let b = be32(x);
    assert(s[k] == b[0] && s[k + 1] == b[1] && s[k + 2] == b[2] && s[k + 3] == b[3]) by {
        assert(s.subrange(k, k + 4)[0] == s[k]);
        assert(s.subrange(k, k + 4)[1] == s[k + 1]);
        assert(s.subrange(k, k + 4)[2] == s[k + 2]);
        assert(s.subrange(k, k + 4)[3] == s[k + 3]);
    }
    assert(be_at(s, k, 0) == 0);
    assert(be_at(s, k, 1) == byte_at(s, k));
    assert(be_at(s, k, 2) == be_at(s, k, 1) * 256 + byte_at(s, k + 1));
    assert(be_at(s, k, 3) == be_at(s, k, 2) * 256 + byte_at(s, k + 2));
    assert(be_at(s, k, 4) == be_at(s, k, 3) * 256 + byte_at(s, k + 3));
    let xi = x as int;
    assert(xi == ((xi / 16777216 * 256 + (xi / 65536) % 256) * 256 + (xi / 256) % 256) * 256 + xi % 256)
        by (nonlinear_arith)
        requires
            0 <= xi < 4294967296,
    ;
}

fn byte_or_zero(s: &[u8], start: usize, k: usize) -> (r: u8)
    ensures
        r as nat == byte_at(s@, start + k),
{
    if start < s.len() && k < s.len() - start {
        s[start + k]
    } else {
        0
    }
}

proof fn lemma_xor_zero(x: u32)
    ensures
        0u32 ^ x == x,
        x ^ 0u32 == x,
{
    assert(0u32 ^ x == x) by (bit_vector);
    assert(x ^ 0u32 == x) by (bit_vector);
}

proof fn lemma_xor_assoc(a: u32, b: u32, c: u32)
    ensures
        (a ^ b) ^ c == a ^ (b ^ c),
{
    assert((a ^ b) ^ c == a ^ (b ^ c)) by (bit_vector);
}

/// Reads `n` bytes from `start`, most significant first; missing bytes count as zero.
pub fn read_be(s: &[u8], start: usize, n: usize) -> (r: u32)
    requires
        n <= 4,
    ensures
        r as nat == be_at(s@, start as int, n as nat),
{
    let mut acc: u64 = 0;
    let mut k: usize = 0;
    while k < n
        invariant
            k <= n <= 4,
                acc as nat == be_at(s@, start as int, k as nat),
        decreases n - k,
    {
        proof {
            lemma_be_bound(s@, start as int, k as nat);
            lemma_pow256_mono(k as nat, 3);
            lemma_pow256_values();
        }
        let b = byte_or_zero(s, start, k);
        acc = acc * 256 + b as u64;
        k = k + 1;
    }
    proof {
        lemma_be_bound(s@, start as int, n as nat);
        lemma_pow256_mono(n as nat, 4);
        lemma_pow256_values();
    }
    acc as u32
}

/// Reads `n` bytes from `start`, least significant first; missing bytes count as zero.
pub fn read_le(s: &[u8], start: usize, n: usize) -> (r: u32)
    requires
        n <= 4,
    ensures
        r as nat == le_at(s@, start as int, n as nat),
{
    let mut acc: u64 = 0;
    let mut k: usize = n;
    while k > 0
        invariant
            k <= n <= 4,
                acc as nat == le_at(s@, start + k, (n - k) as nat),
        decreases k,
    {
        proof {
            lemma_le_bound(s@, start + k, (n - k) as nat);
            lemma_pow256_mono((n - k) as nat, 3);
            lemma_pow256_values();
        }
        let b = byte_or_zero(s, start, k - 1);
        acc = acc * 256 + b as u64;
        k = k - 1;
    }
    proof {
        lemma_le_bound(s@, start as int, n as nat);
        lemma_pow256_mono(n as nat, 4);
        lemma_pow256_values();
    }
    acc as u32
}

fn width_len(w: Width) -> (r: usize)
    ensures
        r as nat == width_bytes(w),
{
    match w {
        Width::W8 => 1,
        Width::W16 => 2,
        Width::W32 => 4,
    }
}

/// Checksum of `data`: the XOR of its words as `cfg` reads them.
pub fn compute_checksum(data: &[u8], cfg: ChecksumConfig) -> (r: u32)
    ensures
        r == checksum(data@, cfg),
{
    let w = width_len(cfg.width);
    let len = data.len();
    let mut acc: u32 = 0;
    let mut start: usize = 0;
    proof {
        lemma_xor_zero(checksum(data@, cfg));
    }
    while start < len
        invariant
            start <= len == data@.len(),
            w as nat == width_bytes(cfg.width),
            acc ^ checksum_from(data@, cfg, start as int) == checksum(data@, cfg),
        decreases len - start,
    {
        let word = match cfg.order {
            ByteOrder::Big => read_be(data, start, w),
            ByteOrder::Little => read_le(data, start, w),
        };
        let next: usize = if len - start <= w {
            len
        } else {
            start + w
        };
        proof {
            let rest = checksum_from(data@, cfg, next as int);
            lemma_xor_zero(word);
            assert(word == word_at(data@, start as int, cfg));
            assert(checksum_from(data@, cfg, start as int) == word ^ rest);
            lemma_xor_assoc(acc, word, rest);
        }
        acc = acc ^ word;
        start = next;
    }
    proof {
        lemma_xor_zero(acc);
    }
    acc
}

/// Appends the big-endian bytes of `x`.
pub fn push_be32(v: &mut Vec<u8>, x: u32)
    ensures
        final(v)@ == old(v)@ + be32(x),
{
    v.push((x / 16777216) as u8);
    v.push(((x / 65536) % 256) as u8);
    v.push(((x / 256) % 256) as u8);
    v.push((x % 256) as u8);
    assert(final(v)@ =~= old(v)@ + be32(x));
}

/// An opcode followed by its arguments, each as four big-endian bytes.
pub open spec fn command_bytes(opcode: u8, args: Seq<u32>) -> Seq<u8>
    decreases args.len(),
{
    if args.len() == 0 {
        seq![opcode]
    } else {
        command_bytes(opcode, args.drop_last()) + be32(args.last())
    }
}

/// Serializes an opcode and its arguments in the order the device expects.
pub fn encode_command(opcode: u8, args: &[u32]) -> (r: Vec<u8>)
    ensures
        r@ == command_bytes(opcode, args@),
{
    let mut out: Vec<u8> = Vec::new();
    out.push(opcode);
    let mut i: usize = 0;
    assert(args@.subrange(0, 0).len() == 0);
    while i < args.len()
        invariant
            i <= args@.len(),
            out@ == command_bytes(opcode, args@.subrange(0, i as int)),
        decreases args@.len() - i,
    {
        push_be32(&mut out, args[i]);
        proof {
            let pre = args@.subrange(0, i as int + 1);
            assert(pre.drop_last() =~= args@.subrange(0, i as int));
        }
        i = i + 1;
    }
    assert(args@.subrange(0, args@.len() as int) =~= args@);
    out
}

} // verus!
