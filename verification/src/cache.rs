//! Content-addressable cache: a deterministic fingerprint over encoding
//! options and raw bytes, its hexadecimal file name, an in-memory key-value
//! byte store, and the caching step that serves repeated requests without a
//! second encode.

use crate::texture::TextureFormat;
use vstd::prelude::*;

verus! {

/// The 64-bit SeaHash digest of a byte sequence, a function of the bytes
/// alone.
pub uninterp spec fn seahash_of(bytes: Seq<u8>) -> u64;

/// Relies on seahash::hash: the portable 64-bit digest of a byte buffer,
/// computed with a fixed prechosen seed, so it depends on the bytes alone.
#[verifier::external_body]
fn seahash_digest(bytes: &Vec<u8>) -> (r: u64)
    ensures
        r == seahash_of(bytes@),
{
    seahash::hash(bytes)
}

/// The bytes a fingerprint digests: the target format's code byte, the
/// supercompression flag byte, then the raw source bytes.
pub open spec fn fingerprint_material(
    format: TextureFormat,
    supercompression: bool,
    bytes: Seq<u8>,
) -> Seq<u8> {
    seq![
        format.code_spec(),
        if supercompression {
            1u8
        } else {
            0u8
        },
    ] + bytes
}

/// The cache key of one encode request. Identical format, flag and bytes
/// give the identical key; keys carry no notion of which texture or
/// material produced the bytes.
pub open spec fn fingerprint_spec(
    format: TextureFormat,
    supercompression: bool,
    bytes: Seq<u8>,
) -> u64 {
    seahash_of(fingerprint_material(format, supercompression, bytes))
}

/// Computes the cache key of one encode request: the digest of the target
/// format, the supercompression flag, and the raw source bytes.
pub fn fingerprint(format: TextureFormat, supercompression: bool, bytes: &Vec<u8>) -> (r: u64)
    requires
        bytes@.len() + 2 <= usize::MAX,
    ensures
        r == fingerprint_spec(format, supercompression, bytes@),
{
    let mut buf: Vec<u8> = Vec::new();
    buf.push(format.code());
    buf.push(if supercompression { 1 } else { 0 });
    let n = bytes.len();
    let mut i: usize = 0;
    while i < n
        invariant
            i <= n == bytes@.len(),
            buf@ == fingerprint_material(format, supercompression, bytes@.subrange(0, i as int)),
        decreases n - i,
    {
        buf.push(bytes[i]);
        i = i + 1;
        proof {
            assert(buf@ =~= fingerprint_material(
                format,
                supercompression,
                bytes@.subrange(0, i as int),
            ));
        }
    }
    proof {
        assert(bytes@.subrange(0, n as int) =~= bytes@);
    }
    seahash_digest(&buf)
}

/// The sixteen hexadecimal digit characters, uppercase.
pub open spec fn hex_digit(d: int) -> char {
    seq!['0', '1', '2', '3', '4', '5', '6', '7', '8', '9', 'A', 'B', 'C', 'D', 'E', 'F'][d]
}

/// The `i`-th nibble of `h`, most significant first.
pub open spec fn nibble(h: u64, i: int) -> u64 {
    (h >> (((15 - i) * 4) as u64)) & 0xf
}

/// The sixteen hexadecimal digits of `h`, uppercase, most significant
/// first, so that every cache file name has the same length.
pub open spec fn hex16(h: u64) -> Seq<char> {
    Seq::new(16, |i: int| hex_digit(nibble(h, i) as int))
}

/// One hexadecimal digit as text.
fn hex_digit_str(d: u64) -> (r: &'static str)
    requires
        d < 16,
    ensures
        r@.len() == 1,
        r@[0] == hex_digit(d as int),
{
    proof {
        reveal_strlit("0");
        reveal_strlit("1");
        reveal_strlit("2");
        reveal_strlit("3");
        reveal_strlit("4");
        reveal_strlit("5");
        reveal_strlit("6");
        reveal_strlit("7");
        reveal_strlit("8");
        reveal_strlit("9");
        reveal_strlit("A");
        reveal_strlit("B");
        reveal_strlit("C");
        reveal_strlit("D");
        reveal_strlit("E");
        reveal_strlit("F");
    }
    if d == 0 {
        "0"
    } else if d == 1 {
        "1"
    } else if d == 2 {
        "2"
    } else if d == 3 {
        "3"
    } else if d == 4 {
        "4"
    } else if d == 5 {
        "5"
    } else if d == 6 {
        "6"
    } else if d == 7 {
        "7"
    } else if d == 8 {
        "8"
    } else if d == 9 {
        "9"
    } else if d == 10 {
        "A"
    } else if d == 11 {
        "B"
    } else if d == 12 {
        "C"
    } else if d == 13 {
        "D"
    } else if d == 14 {
        "E"
    } else {
        "F"
    }
}

/// Formats a fingerprint as its sixteen-digit uppercase hexadecimal cache
/// file name.
pub fn hex_key(h: u64) -> (r: String)
    ensures
        r@ == hex16(h),
{
    let mut s = String::new();
    let mut i: usize = 0;
    while i < 16
        invariant
            i <= 16,
            s@ == hex16(h).subrange(0, i as int),
        decreases 16 - i,
    {
        let shift: u64 = ((15 - i) * 4) as u64;
        let d: u64 = (h >> shift) & 0xf;
        proof {
            assert(d == nibble(h, i as int));
            assert((h >> shift) & 0xf < 16) by (bit_vector);
        }
        s.append(hex_digit_str(d));
        i = i + 1;
        proof {
            assert(s@ =~= hex16(h).subrange(0, i as int));
        }
    }
    proof {
        assert(hex16(h).subrange(0, 16) =~= hex16(h));
    }
    s
}

/// The key-value map an entry list stands for; a later entry wins over an
/// earlier one with the same key.
pub open spec fn entries_map(s: Seq<(u64, Vec<u8>)>) -> Map<u64, Seq<u8>>
    decreases s.len(),
{
    if s.len() == 0 {
        Map::empty()
    } else {
        entries_map(s.drop_last()).insert(s.last().0, s.last().1@)
    }
}

/// The last entry holding a key gives the map's value for it.
proof fn lemma_entries_map_last_match(s: Seq<(u64, Vec<u8>)>, i: int, key: u64)
    requires
        0 <= i < s.len(),
        s[i].0 == key,
        forall|j: int| i < j < s.len() ==> (#[trigger] s[j]).0 != key,
    ensures
        entries_map(s).contains_key(key),
        entries_map(s)[key] == s[i].1@,
    decreases s.len(),
{
    if i == s.len() - 1 {
    } else {
        assert(forall|j: int| 0 <= j < s.drop_last().len() ==> #[trigger] s.drop_last()[j] == s[j]);
        lemma_entries_map_last_match(s.drop_last(), i, key);
        assert(s.last().0 != key);
    }
}

/// A key no entry holds is not in the map.
proof fn lemma_entries_map_absent(s: Seq<(u64, Vec<u8>)>, key: u64)
    requires
        forall|j: int| 0 <= j < s.len() ==> (#[trigger] s[j]).0 != key,
    ensures
        !entries_map(s).contains_key(key),
    decreases s.len(),
{
    if s.len() > 0 {
        assert(forall|j: int| 0 <= j < s.drop_last().len() ==> #[trigger] s.drop_last()[j] == s[j]);
        lemma_entries_map_absent(s.drop_last(), key);
    }
}

/// Copies a byte vector.
fn clone_bytes(v: &Vec<u8>) -> (r: Vec<u8>)
    ensures
        r@ == v@,
{
    let mut r: Vec<u8> = Vec::new();
    let n = v.len();
    let mut i: usize = 0;
    while i < n
        invariant
            i <= n == v@.len(),
            r@ == v@.subrange(0, i as int),
        decreases n - i,
    {
        r.push(v[i]);
        i = i + 1;
        proof {
            assert(r@ =~= v@.subrange(0, i as int));
        }
    }
    proof {
        assert(v@.subrange(0, n as int) =~= v@);
    }
    r
}

/// The in-memory content-addressable byte store: previously encoded results
/// by fingerprint. Two requests with identical fingerprints are served the
/// identical bytes.
pub struct Cache {
    entries: Vec<(u64, Vec<u8>)>,
}

impl Cache {
    /// The map this cache stands for: fingerprint to encoded bytes.
    pub closed spec fn view(&self) -> Map<u64, Seq<u8>> {
        entries_map(self.entries@)
    }

    /// An empty cache.
    pub fn new() -> (r: Cache)
        ensures
            r@ == Map::<u64, Seq<u8>>::empty(),
    {
        Cache { entries: Vec::new() }
    }

    /// Serves a previously stored result: the bytes most recently stored
    /// under `key`, or nothing when the key was never stored.
    pub fn lookup(&self, key: u64) -> (r: Option<Vec<u8>>)
        ensures
            match r {
                Some(v) => self@.contains_key(key) && v@ == self@[key],
                None => !self@.contains_key(key),
            },
    {
        let n = self.entries.len();
        let mut i: usize = n;
        while i > 0
            invariant
                i <= n == self.entries@.len(),
                forall|j: int| i <= j < n ==> (#[trigger] self.entries@[j]).0 != key,
            decreases i,
        {
            i = i - 1;
            if self.entries[i].0 == key {
                let r = clone_bytes(&self.entries[i].1);
                proof {
                    lemma_entries_map_last_match(self.entries@, i as int, key);
                }
                return Some(r);
            }
        }
        proof {
            lemma_entries_map_absent(self.entries@, key);
        }
        None
    }

    /// Stores `value` under `key`; a later store of the same key wins.
    pub fn store(&mut self, key: u64, value: Vec<u8>)
        ensures
            final(self)@ == old(self)@.insert(key, value@),
    {
        let ghost before = self.entries@;
        self.entries.push((key, value));
        proof {
            assert(self.entries@.drop_last() =~= before);
        }
    }
}

/// One caching step for one fingerprint: a hit (caching enabled and the key
/// stored) returns the stored bytes and encodes nothing; a miss encodes
/// `fresh` and, when caching is enabled, stores it. The triple is the bytes
/// returned, the cache afterwards, and whether the encoder ran.
pub open spec fn encode_step(
    cache: Map<u64, Seq<u8>>,
    use_cache: bool,
    key: u64,
    fresh: Seq<u8>,
) -> (Seq<u8>, Map<u64, Seq<u8>>, bool) {
    if use_cache && cache.contains_key(key) {
        (cache[key], cache, false)
    } else {
        (
            fresh,
            if use_cache {
                cache.insert(key, fresh)
            } else {
                cache
            },
            true,
        )
    }
}

/// Idempotence under caching: with caching enabled, two requests for the
/// same fingerprint return byte-identical output, and the second request
/// does not invoke the encoder.
pub proof fn lemma_cache_idempotent(
    cache: Map<u64, Seq<u8>>,
    key: u64,
    fresh1: Seq<u8>,
    fresh2: Seq<u8>,
)
    ensures
        ({
            let (out1, cache1, ran1) = encode_step(cache, true, key, fresh1);
            let (out2, cache2, ran2) = encode_step(cache1, true, key, fresh2);
            out2 == out1 && !ran2 && cache2 == cache1
        }),
{
}

} // verus!
