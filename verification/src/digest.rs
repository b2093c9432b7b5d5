//! Layer hashing: byte encodings, BLAKE3 digests in lowercase hexadecimal,
//! and the combination of named digests into one checksum.

use vstd::prelude::*;
use vstd::string::*;
use vstd::utf8::encode_utf8;
use crate::scalar::{le_bytes, u32_le_bytes, Scalar};
use crate::state::{Biome, GeologicProvince, RiverClass, RockType, StrataLayer};

verus! {

/// Length of a digest in bytes.
pub const DIGEST_LEN: usize = 32;

/// The BLAKE3 hash of a byte string, in its default 32-byte length.
pub uninterp spec fn blake3_hash(input: Seq<u8>) -> Seq<u8>;

/// `blake3::hash`, the all-at-once form of the default BLAKE3 hash function,
/// followed by `Hash::as_bytes`. The contract gives the digest a name: it is
/// a function of the input bytes and of nothing else, and it is 32 bytes long.
#[verifier::external_body]
fn blake3_of(input: &[u8]) -> (out: [u8; 32])
    ensures
        out@ == blake3_hash(input@),
{
    *blake3::hash(input).as_bytes()
}

/// The lowercase hexadecimal digit of a value below 16.
pub open spec fn hex_char(n: int) -> char {
    if n == 0 {
        '0'
    } else if n == 1 {
        '1'
    } else if n == 2 {
        '2'
    } else if n == 3 {
        '3'
    } else if n == 4 {
        '4'
    } else if n == 5 {
        '5'
    } else if n == 6 {
        '6'
    } else if n == 7 {
        '7'
    } else if n == 8 {
        '8'
    } else if n == 9 {
        '9'
    } else if n == 10 {
        'a'
    } else if n == 11 {
        'b'
    } else if n == 12 {
        'c'
    } else if n == 13 {
        'd'
    } else if n == 14 {
        'e'
    } else {
        'f'
    }
}

/// Lowercase hexadecimal: two digits per byte, the high half first.
pub open spec fn hex_lower(bytes: Seq<u8>) -> Seq<char> {
    Seq::new(
        2 * bytes.len(),
        |i: int|
            hex_char(
                if i % 2 == 0 {
                    bytes[i / 2] as int / 16
                } else {
                    bytes[i / 2] as int % 16
                },
            ),
    )
}

/// The BLAKE3 hash of a byte string in lowercase hexadecimal.
pub open spec fn hex_digest(input: Seq<u8>) -> Seq<char> {
    hex_lower(blake3_hash(input))
}

/// A decimal digit or one of the letters `a` to `f`.
pub open spec fn is_lower_hex(c: char) -> bool {
    ('0' as u32 <= c as u32 && c as u32 <= '9' as u32) || ('a' as u32 <= c as u32 && c as u32
        <= 'f' as u32)
}

/// The shape of a digest in hexadecimal: 64 lowercase hexadecimal digits.
pub open spec fn is_hex_digest(s: Seq<char>) -> bool {
    s.len() == 2 * DIGEST_LEN && forall|i: int| 0 <= i < s.len() ==> is_lower_hex(#[trigger] s[i])
}

/// Hexadecimal text has two characters per byte, all of them lowercase
/// hexadecimal digits.
pub proof fn lemma_hex_lower_shape(bytes: Seq<u8>)
    ensures
        hex_lower(bytes).len() == 2 * bytes.len(),
        forall|i: int|
            0 <= i < hex_lower(bytes).len() ==> is_lower_hex(#[trigger] hex_lower(bytes)[i]),
{
    assert forall|n: int| 0 <= n < 16 implies is_lower_hex(#[trigger] hex_char(n)) by {}
    assert forall|i: int| 0 <= i < hex_lower(bytes).len() implies is_lower_hex(
        #[trigger] hex_lower(bytes)[i],
    ) by {
        let b = bytes[i / 2] as int;
        assert(0 <= b / 16 < 16 && 0 <= b % 16 < 16);
    }
}

fn hex_digit(n: u8) -> (s: &'static str)
    requires
        n < 16,
    ensures
        s@ == seq![hex_char(n as int)],
{
    proof {
        reveal_strlit("0");
        reveal_strlit("1");
        reveal_strlit("2");
        reveal_strlit("3");
        reveal_strlit("4");
        reveal_strlit("5");
        reveal_strlit("6");
        reveal_strlit("7");
        reveal_strlit("8");
        reveal_strlit("9");
        reveal_strlit("a");
        reveal_strlit("b");
        reveal_strlit("c");
        reveal_strlit("d");
        reveal_strlit("e");
        reveal_strlit("f");
    }
    let s = if n == 0 {
        "0"
    } else if n == 1 {
        "1"
    } else if n == 2 {
        "2"
    } else if n == 3 {
        "3"
    } else if n == 4 {
        "4"
    } else if n == 5 {
        "5"
    } else if n == 6 {
        "6"
    } else if n == 7 {
        "7"
    } else if n == 8 {
        "8"
    } else if n == 9 {
        "9"
    } else if n == 10 {
        "a"
    } else if n == 11 {
        "b"
    } else if n == 12 {
        "c"
    } else if n == 13 {
        "d"
    } else if n == 14 {
        "e"
    } else {
        "f"
    };
    assert(s@ =~= seq![hex_char(n as int)]);
    s
}

/// Encodes bytes in lowercase hexadecimal.
pub fn to_hex(bytes: &[u8]) -> (s: String)
    ensures
        s@ == hex_lower(bytes@),
        s@.len() == 2 * bytes@.len(),
        forall|i: int| 0 <= i < s@.len() ==> is_lower_hex(#[trigger] s@[i]),
{
    proof {
        lemma_hex_lower_shape(bytes@);
    }
    let mut s = String::new();
    let mut i: usize = 0;
    while i < bytes.len()
        invariant
            i <= bytes@.len(),
            s@.len() == 2 * i,
            forall|j: int| 0 <= j < 2 * i ==> s@[j] == hex_lower(bytes@)[j],
        decreases bytes@.len() - i,
    {
        let b: u8 = bytes[i];
        let hi: u8 = b / 16;
        let lo: u8 = b % 16;
        let ghost before = s@;
        s.append(hex_digit(hi));
        s.append(hex_digit(lo));
        proof {
            assert(s@ =~= before.push(hex_char(hi as int)).push(hex_char(lo as int)));
            assert((2 * i) / 2 == i && (2 * i) % 2 == 0);
            assert((2 * i + 1) / 2 == i && (2 * i + 1) % 2 == 1);
        }
        i += 1;
    }
    assert(s@ =~= hex_lower(bytes@));
    s
}

/// The BLAKE3 hash of `input` in lowercase hexadecimal.
pub fn digest_hex(input: &[u8]) -> (s: String)
    ensures
        s@ == hex_digest(input@),
        is_hex_digest(s@),
{
    let digest: [u8; 32] = blake3_of(input);
    to_hex(digest.as_slice())
}

/// The little-endian bytes of a sequence of 32-bit words, word after word.
pub open spec fn words_bytes(words: Seq<u32>) -> Seq<u8> {
    Seq::new(4 * words.len(), |i: int| le_bytes(words[i / 4])[i % 4])
}

/// The bit patterns of a sequence of scalars.
pub open spec fn scalar_bits(cells: Seq<Scalar>) -> Seq<u32> {
    Seq::new(cells.len(), |i: int| cells[i].bits)
}

/// One byte per flag: 1 for true, 0 for false.
pub open spec fn flag_bytes(cells: Seq<bool>) -> Seq<u8> {
    Seq::new(
        cells.len(),
        |i: int|
            if cells[i] {
                1u8
            } else {
                0u8
            },
    )
}

/// One byte per cell: the tag of its river class.
pub open spec fn river_bytes(cells: Seq<RiverClass>) -> Seq<u8> {
    Seq::new(cells.len(), |i: int| cells[i].tag())
}

/// One byte per cell: the tag of its biome.
pub open spec fn biome_bytes(cells: Seq<Biome>) -> Seq<u8> {
    Seq::new(cells.len(), |i: int| cells[i].tag())
}

/// One byte per cell: the tag of its province.
pub open spec fn province_bytes(cells: Seq<GeologicProvince>) -> Seq<u8> {
    Seq::new(cells.len(), |i: int| cells[i].tag())
}

/// One byte per cell: the tag of its rock.
pub open spec fn rock_bytes(cells: Seq<RockType>) -> Seq<u8> {
    Seq::new(cells.len(), |i: int| cells[i].tag())
}

fn push_word(out: &mut Vec<u8>, word: u32, Ghost(words): Ghost<Seq<u32>>, Ghost(i): Ghost<int>)
    requires
        0 <= i < words.len(),
        words[i] == word,
        old(out)@.len() == 4 * i,
        forall|j: int| 0 <= j < 4 * i ==> old(out)@[j] == words_bytes(words)[j],
    ensures
        final(out)@.len() == 4 * (i + 1),
        forall|j: int| 0 <= j < 4 * (i + 1) ==> final(out)@[j] == words_bytes(words)[j],
{
    let bytes: [u8; 4] = u32_le_bytes(word);
    out.push(bytes[0]);
    out.push(bytes[1]);
    out.push(bytes[2]);
    out.push(bytes[3]);
    proof {
        assert((4 * i) / 4 == i && (4 * i) % 4 == 0);
        assert((4 * i + 1) / 4 == i && (4 * i + 1) % 4 == 1);
        assert((4 * i + 2) / 4 == i && (4 * i + 2) % 4 == 2);
        assert((4 * i + 3) / 4 == i && (4 * i + 3) % 4 == 3);
    }
}

/// Hashes a layer of scalars by the little-endian bytes of their patterns.
pub fn hash_scalars(cells: &[Scalar]) -> (hex: String)
    ensures
        hex@ == hex_digest(words_bytes(scalar_bits(cells@))),
        is_hex_digest(hex@),
{
    let ghost words = scalar_bits(cells@);
    let mut out: Vec<u8> = Vec::new();
    let mut i: usize = 0;
    while i < cells.len()
        invariant
            i <= cells@.len(),
            words == scalar_bits(cells@),
            out@.len() == 4 * i,
            forall|j: int| 0 <= j < 4 * i ==> out@[j] == words_bytes(words)[j],
        decreases cells@.len() - i,
    {
        push_word(&mut out, cells[i].bits, Ghost(words), Ghost(i as int));
        i += 1;
    }
    assert(out@ =~= words_bytes(words));
    digest_hex(out.as_slice())
}

/// Hashes a layer of 32-bit words by their little-endian bytes.
pub fn hash_u32(cells: &[u32]) -> (hex: String)
    ensures
        hex@ == hex_digest(words_bytes(cells@)),
        is_hex_digest(hex@),
{
    let mut out: Vec<u8> = Vec::new();
    let mut i: usize = 0;
    while i < cells.len()
        invariant
            i <= cells@.len(),
            out@.len() == 4 * i,
            forall|j: int| 0 <= j < 4 * i ==> out@[j] == words_bytes(cells@)[j],
        decreases cells@.len() - i,
    {
        push_word(&mut out, cells[i], Ghost(cells@), Ghost(i as int));
        i += 1;
    }
    assert(out@ =~= words_bytes(cells@));
    digest_hex(out.as_slice())
}

/// Hashes a layer of bytes as it stands.
pub fn hash_u8(cells: &[u8]) -> (hex: String)
    ensures
        hex@ == hex_digest(cells@),
        is_hex_digest(hex@),
{
    digest_hex(cells)
}

/// Hashes a layer of flags, one byte per flag.
pub fn hash_bool(cells: &[bool]) -> (hex: String)
    ensures
        hex@ == hex_digest(flag_bytes(cells@)),
        is_hex_digest(hex@),
{
    let mut out: Vec<u8> = Vec::new();
    let mut i: usize = 0;
    while i < cells.len()
        invariant
            i <= cells@.len(),
            out@.len() == i,
            forall|j: int| 0 <= j < i ==> out@[j] == flag_bytes(cells@)[j],
        decreases cells@.len() - i,
    {
        out.push(if cells[i] { 1 } else { 0 });
        i += 1;
    }
    assert(out@ =~= flag_bytes(cells@));
    digest_hex(out.as_slice())
}

/// Hashes a layer of river classes by their tags.
pub fn hash_river_class(cells: &[RiverClass]) -> (hex: String)
    ensures
        hex@ == hex_digest(river_bytes(cells@)),
        is_hex_digest(hex@),
{
    let mut out: Vec<u8> = Vec::new();
    let mut i: usize = 0;
    while i < cells.len()
        invariant
            i <= cells@.len(),
            out@.len() == i,
            forall|j: int| 0 <= j < i ==> out@[j] == river_bytes(cells@)[j],
        decreases cells@.len() - i,
    {
        out.push(cells[i].as_u8());
        i += 1;
    }
    assert(out@ =~= river_bytes(cells@));
    digest_hex(out.as_slice())
}

/// Hashes a layer of biomes by their tags.
pub fn hash_biome(cells: &[Biome]) -> (hex: String)
    ensures
        hex@ == hex_digest(biome_bytes(cells@)),
        is_hex_digest(hex@),
{
    let mut out: Vec<u8> = Vec::new();
    let mut i: usize = 0;
    while i < cells.len()
        invariant
            i <= cells@.len(),
            out@.len() == i,
            forall|j: int| 0 <= j < i ==> out@[j] == biome_bytes(cells@)[j],
        decreases cells@.len() - i,
    {
        out.push(cells[i].as_u8());
        i += 1;
    }
    assert(out@ =~= biome_bytes(cells@));
    digest_hex(out.as_slice())
}

/// Hashes a layer of provinces by their tags.
pub fn hash_province(cells: &[GeologicProvince]) -> (hex: String)
    ensures
        hex@ == hex_digest(province_bytes(cells@)),
        is_hex_digest(hex@),
{
    let mut out: Vec<u8> = Vec::new();
    let mut i: usize = 0;
    while i < cells.len()
        invariant
            i <= cells@.len(),
            out@.len() == i,
            forall|j: int| 0 <= j < i ==> out@[j] == province_bytes(cells@)[j],
        decreases cells@.len() - i,
    {
        out.push(cells[i].as_u8());
        i += 1;
    }
    assert(out@ =~= province_bytes(cells@));
    digest_hex(out.as_slice())
}

/// Hashes a layer of rocks by their tags.
pub fn hash_rock(cells: &[RockType]) -> (hex: String)
    ensures
        hex@ == hex_digest(rock_bytes(cells@)),
        is_hex_digest(hex@),
{
    let mut out: Vec<u8> = Vec::new();
    let mut i: usize = 0;
    while i < cells.len()
        invariant
            i <= cells@.len(),
            out@.len() == i,
            forall|j: int| 0 <= j < i ==> out@[j] == rock_bytes(cells@)[j],
        decreases cells@.len() - i,
    {
        out.push(cells[i].as_u8());
        i += 1;
    }
    assert(out@ =~= rock_bytes(cells@));
    digest_hex(out.as_slice())
}

/// The bytes of one stratum: the tag of its rock, then its draw as a
/// little-endian word.
pub open spec fn stratum_bytes(layer: StrataLayer) -> Seq<u8> {
    seq![layer.rock.tag()] + le_bytes(layer.grain)
}

/// The bytes of one stack, stratum after stratum from the top.
pub open spec fn stack_bytes(stack: Seq<StrataLayer>) -> Seq<u8>
    decreases stack.len(),
{
    if stack.len() == 0 {
        Seq::empty()
    } else {
        stack_bytes(stack.drop_last()) + stratum_bytes(stack.last())
    }
}

/// The bytes of a layer of stacks, cell after cell.
pub open spec fn strata_bytes(cells: Seq<Vec<StrataLayer>>) -> Seq<u8>
    decreases cells.len(),
{
    if cells.len() == 0 {
        Seq::empty()
    } else {
        strata_bytes(cells.drop_last()) + stack_bytes(cells.last()@)
    }
}

/// Hashes a layer of strata stacks: cell by cell and stratum by stratum, the
/// tag of the rock followed by the draw.
pub fn hash_strata(cells: &[Vec<StrataLayer>]) -> (hex: String)
    ensures
        hex@ == hex_digest(strata_bytes(cells@)),
        is_hex_digest(hex@),
{
    let mut out: Vec<u8> = Vec::new();
    let mut i: usize = 0;
    assert(cells@.subrange(0, 0) =~= Seq::empty());
    while i < cells.len()
        invariant
            i <= cells@.len(),
            out@ == strata_bytes(cells@.subrange(0, i as int)),
        decreases cells@.len() - i,
    {
        let stack = &cells[i];
        let ghost done = out@;
        let mut j: usize = 0;
        assert(stack@.subrange(0, 0) =~= Seq::empty());
        while j < stack.len()
            invariant
                j <= stack@.len(),
                out@ == done + stack_bytes(stack@.subrange(0, j as int)),
            decreases stack@.len() - j,
        {
            let layer: StrataLayer = stack[j];
            let word: [u8; 4] = u32_le_bytes(layer.grain);
            let ghost before = out@;
            out.push(layer.rock.as_u8());
            out.push(word[0]);
            out.push(word[1]);
            out.push(word[2]);
            out.push(word[3]);
            proof {
                let next = stack@.subrange(0, j + 1);
                assert(next.drop_last() =~= stack@.subrange(0, j as int));
                assert(next.last() == layer);
                assert(out@ =~= before + stratum_bytes(layer));
                assert(out@ =~= done + stack_bytes(next));
            }
            j += 1;
        }
        proof {
            assert(stack@.subrange(0, j as int) =~= stack@);
            let next = cells@.subrange(0, i + 1);
            assert(next.drop_last() =~= cells@.subrange(0, i as int));
            assert(next.last() == cells@[i as int]);
        }
        i += 1;
    }
    assert(cells@.subrange(0, i as int) =~= cells@);
    digest_hex(out.as_slice())
}

/// The hash of one named layer.
#[derive(Debug)]
pub struct LayerHash {
    pub name: String,
    pub hash: String,
}

impl View for LayerHash {
    type V = (Seq<char>, Seq<char>);

    open spec fn view(&self) -> (Seq<char>, Seq<char>) {
        (self.name@, self.hash@)
    }
}

impl Clone for LayerHash {
    fn clone(&self) -> (c: LayerHash)
        ensures
            c@ == self@,
    {
        LayerHash { name: self.name.clone(), hash: self.hash.clone() }
    }
}

/// The name and hash of every entry.
pub open spec fn entries_view(entries: Seq<LayerHash>) -> Seq<(Seq<char>, Seq<char>)> {
    Seq::new(entries.len(), |i: int| entries[i]@)
}

/// What the checksum is taken of: for every entry in turn, the bytes of its
/// name followed by the bytes of its hash.
pub open spec fn listing_bytes(entries: Seq<(Seq<char>, Seq<char>)>) -> Seq<u8>
    decreases entries.len(),
{
    if entries.len() == 0 {
        Seq::empty()
    } else {
        listing_bytes(entries.drop_last()) + encode_utf8(entries.last().0) + encode_utf8(
            entries.last().1,
        )
    }
}

fn append_bytes(out: &mut Vec<u8>, bytes: &[u8])
    ensures
        final(out)@ == old(out)@ + bytes@,
{
    let ghost before = out@;
    let mut i: usize = 0;
    while i < bytes.len()
        invariant
            i <= bytes@.len(),
            out@ == before + bytes@.subrange(0, i as int),
        decreases bytes@.len() - i,
    {
        out.push(bytes[i]);
        assert(bytes@.subrange(0, i + 1) =~= bytes@.subrange(0, i as int).push(bytes@[i as int]));
        assert(out@ =~= before + bytes@.subrange(0, i + 1));
        i += 1;
    }
    assert(bytes@.subrange(0, i as int) =~= bytes@);
}

/// Combines the named hashes, in the order given, into one checksum.
pub fn combine(entries: &Vec<LayerHash>) -> (checksum: String)
    ensures
        checksum@ == hex_digest(listing_bytes(entries_view(entries@))),
        is_hex_digest(checksum@),
{
    let ghost all = entries_view(entries@);
    let mut out: Vec<u8> = Vec::new();
    let mut i: usize = 0;
    assert(all.subrange(0, 0) =~= Seq::empty());
    while i < entries.len()
        invariant
            i <= entries@.len(),
            all == entries_view(entries@),
            out@ == listing_bytes(all.subrange(0, i as int)),
        decreases entries@.len() - i,
    {
        let entry = &entries[i];
        append_bytes(&mut out, entry.name.as_str().as_bytes());
        append_bytes(&mut out, entry.hash.as_str().as_bytes());
        proof {
            let next = all.subrange(0, i + 1);
            assert(next.drop_last() =~= all.subrange(0, i as int));
            assert(next.last() == entries@[i as int]@);
        }
        i += 1;
    }
    assert(all.subrange(0, i as int) =~= all);
    digest_hex(out.as_slice())
}

} // verus!
