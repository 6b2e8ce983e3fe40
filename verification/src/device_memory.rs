//! The bytes that go to and come from the buffers of the mining kernel.
//!
//! The kernel works on 32-bit words. What the host uploads as words is laid out in the byte order
//! of the machine, which `endianness()` stands for; on little-endian machines the words of a byte
//! string lie in memory as the byte string does.

use crate::uint512::{
    law_bytes_of_a_number_read_back, law_number_of_bytes_written_back, le_bytes, le_value,
    lemma_at_most_max, Uint512,
};
use vstd::arithmetic::power2::pow2;
use vstd::endian::{endianness, Endian};
use vstd::prelude::*;

verus! {

/// Bytes of the header buffer: 8 words.
pub const HEADER_BUFFER_SIZE: usize = 8 * 4;

/// Bytes of the target buffer: 16 words.
pub const TARGET_BUFFER_SIZE: usize = 16 * 4;

/// Bytes of the start nonce buffer: 16 words.
pub const START_NONCE_BUFFER_SIZE: usize = 16 * 4;

/// Bytes of the results and staging buffers: a flag, the nonce and the hash, 33 words.
pub const RESULTS_BUFFER_SIZE: usize = (1 + 16 + 16) * 4;

/// Bytes of the dispatch configuration buffer: 3 words.
pub const DISPATCH_CONFIG_BUFFER_SIZE: usize = 3 * 4;

/// Where the kernel finds the results buffer.
pub const RESULTS_BINDING: u32 = 0;

/// Where the kernel finds the header buffer.
pub const HEADER_BINDING: u32 = 1;

/// Where the kernel finds the start nonce buffer.
pub const START_NONCE_BINDING: u32 = 2;

/// Where the kernel finds the target buffer.
pub const TARGET_BINDING: u32 = 3;

/// Where the kernel finds the dispatch configuration buffer.
pub const DISPATCH_CONFIG_BINDING: u32 = 4;

/// The `k`-th least significant byte of a word.
pub open spec fn byte_of(word: u32, k: int) -> u8 {
    if k == 0 {
        (word % 256) as u8
    } else if k == 1 {
        ((word / 256) % 256) as u8
    } else if k == 2 {
        ((word / 65536) % 256) as u8
    } else {
        (word / 16777216) as u8
    }
}

/// The words whose bytes, least significant first, are those of `bytes`, four at a time.
pub open spec fn le_words(bytes: Seq<u8>) -> Seq<u32> {
    Seq::new(
        bytes.len() / 4,
        |i: int|
            (bytes[4 * i] + 256 * bytes[4 * i + 1] + 65536 * bytes[4 * i + 2] + 16777216 * bytes[4
                * i + 3]) as u32,
    )
}

/// The bytes of `words` in memory, on a machine of the given byte order.
pub open spec fn memory_image(words: Seq<u32>, order: Endian) -> Seq<u8> {
    Seq::new(
        4 * words.len(),
        |k: int|
            match order {
                Endian::Little => byte_of(words[k / 4], k % 4),
                Endian::Big => byte_of(words[k / 4], 3 - k % 4),
            },
    )
}

/// The number that `words` stand for in base 2^32, least significant first.
pub open spec fn words_value(words: Seq<u32>) -> nat
    decreases words.len(),
{
    if words.len() == 0 {
        0
    } else {
        words[0] as nat + 0x1_0000_0000 * words_value(words.drop_first())
    }
}

/// `bytemuck::cast_slice` from words to bytes: the words as they lie in memory. Bytes have no
/// alignment and a word is a whole number of them, so that this cast never fails.
#[verifier::external_body]
fn words_as_bytes(words: &[u32]) -> (bytes: Vec<u8>)
    ensures
        bytes@ == memory_image(words@, endianness()),
{
    bytemuck::cast_slice::<u32, u8>(words).to_vec()
}

/// `bytemuck::pod_collect_to_vec` from bytes to words: the words that lie in memory as these
/// bytes do. It copies, so that the bytes may lie at any address.
#[verifier::external_body]
fn bytes_as_words(bytes: &[u8]) -> (words: Vec<u32>)
    requires
        bytes@.len() % 4 == 0,
    ensures
        memory_image(words@, endianness()) == bytes@,
{
    bytemuck::pod_collect_to_vec::<u8, u32>(bytes)
}

/// Groups bytes into words, the first byte of each group being the least significant.
fn group_words(bytes: &[u8]) -> (words: Vec<u32>)
    requires
        bytes@.len() % 4 == 0,
    ensures
        words@ == le_words(bytes@),
{
    let mut words: Vec<u32> = Vec::new();
    let len: usize = bytes.len();
    let count: usize = len / 4;
    let mut i: usize = 0;
    while i < count
        invariant
            i <= count,
            len == bytes@.len(),
            len == 4 * count,
            words@ == le_words(bytes@).take(i as int),
        decreases count - i,
    {
        let word: u32 = bytes[4 * i] as u32 + 256 * (bytes[4 * i + 1] as u32) + 65536 * (bytes[4 * i
            + 2] as u32) + 16777216 * (bytes[4 * i + 3] as u32);
        words.push(word);
        i += 1;
    }
    assert(le_words(bytes@).take(count as int) =~= le_words(bytes@));
    words
}

/// What the header buffer receives: the header as eight words.
pub fn header_image(header: &[u8; 32]) -> (image: Vec<u8>)
    ensures
        image@ == memory_image(le_words(header@), endianness()),
        image@.len() == HEADER_BUFFER_SIZE,
        endianness() is Little ==> image@ == header@,
{
    let words = group_words(header.as_slice());
    proof {
        law_little_endian_image_is_identity(header@);
    }
    words_as_bytes(words.as_slice())
}

/// What the target buffer receives: the target as sixteen words, least significant first.
pub fn target_image(target: Uint512) -> (image: Vec<u8>)
    ensures
        image@ == memory_image(le_words(le_bytes(target@, 64)), endianness()),
        image@.len() == TARGET_BUFFER_SIZE,
        endianness() is Little ==> image@ == le_bytes(target@, 64),
{
    let bytes = target.to_little_endian();
    let words = group_words(bytes.as_slice());
    proof {
        law_little_endian_image_is_identity(bytes@);
    }
    words_as_bytes(words.as_slice())
}

/// What the start nonce buffer receives: the bytes of the first nonce of the batch, least
/// significant first.
pub fn start_nonce_image(batch_start: Uint512) -> (image: [u8; 64])
    ensures
        image@ == le_bytes(batch_start@, 64),
        image@.len() == START_NONCE_BUFFER_SIZE,
{
    batch_start.to_little_endian()
}

/// What the dispatch configuration buffer receives: three words.
pub fn dispatch_config_image(config: &[u32; 3]) -> (image: Vec<u8>)
    ensures
        image@ == memory_image(config@, endianness()),
        image@.len() == DISPATCH_CONFIG_BUFFER_SIZE,
{
    words_as_bytes(config.as_slice())
}

/// A winning nonce and its hash, as the kernel reports them.
#[derive(Clone, Copy, Debug, PartialEq, Eq)]
pub struct Solution {
    pub nonce: Uint512,
    pub hash: Uint512,
}

/// The kernel has set the flag word at the head of the results.
pub open spec fn flag_set(data: Seq<u8>) -> bool {
    data[0] != 0 || data[1] != 0 || data[2] != 0 || data[3] != 0
}

/// The nonce in the results.
pub open spec fn nonce_field(data: Seq<u8>) -> nat {
    le_value(data.subrange(4, 68))
}

/// The hash in the results.
pub open spec fn hash_field(data: Seq<u8>) -> nat {
    le_value(data.subrange(68, 132))
}

/// Reads the results buffer: nothing where the flag is clear, else the nonce and the hash.
pub fn read_results(data: &[u8]) -> (found: Option<Solution>)
    requires
        data@.len() == RESULTS_BUFFER_SIZE,
    ensures
        found is Some <==> flag_set(data@),
        found matches Some(s) ==> s.nonce@ == nonce_field(data@) && s.hash@ == hash_field(data@),
        found is None <==> data@.take(4) == seq![0u8, 0u8, 0u8, 0u8],
        found matches Some(s) ==> {
            &&& data@.subrange(4, 68) == le_bytes(s.nonce@, 64)
            &&& data@.subrange(68, 132) == le_bytes(s.hash@, 64)
        },
{
    proof {
        law_flag_is_set_by_any_byte(data@);
        law_number_of_bytes_written_back(data@.subrange(4, 68));
        law_number_of_bytes_written_back(data@.subrange(68, 132));
    }
    let words = bytes_as_words(data);
    let ghost order = endianness();
    proof {
        assert(words@.len() == 33) by {
            assert(memory_image(words@, order).len() == 4 * words@.len());
        }
        let image = memory_image(words@, order);
        assert(image[0] == data@[0] && image[1] == data@[1] && image[2] == data@[2] && image[3]
            == data@[3]);
    }
    if words[0] != 0 {
        let nonce_words = &words.as_slice()[1..17];
        let hash_words = &words.as_slice()[17..33];
        let nonce_bytes = words_as_bytes(nonce_words);
        let hash_bytes = words_as_bytes(hash_words);
        proof {
            lemma_image_of_part(words@, order, 1, 17);
            lemma_image_of_part(words@, order, 17, 33);
        }
        Some(
            Solution {
                nonce: Uint512::from_little_endian(nonce_bytes.as_slice()),
                hash: Uint512::from_little_endian(hash_bytes.as_slice()),
            },
        )
    } else {
        None
    }
}

proof fn lemma_image_of_part(words: Seq<u32>, order: Endian, from: int, to: int)
    requires
        0 <= from <= to <= words.len(),
    ensures
        memory_image(words.subrange(from, to), order) == memory_image(words, order).subrange(
            4 * from,
            4 * to,
        ),
{
    let part = memory_image(words.subrange(from, to), order);
    let whole = memory_image(words, order).subrange(4 * from, 4 * to);
    assert forall|k: int| 0 <= k < part.len() implies part[k] == whole[k] by {
        assert((4 * from + k) / 4 == from + k / 4);
        assert((4 * from + k) % 4 == k % 4);
    }
    assert(part =~= whole);
}

/// On a little-endian machine, grouping bytes into words leaves them in place.
pub proof fn law_little_endian_image_is_identity(bytes: Seq<u8>)
    requires
        bytes.len() % 4 == 0,
    ensures
        memory_image(le_words(bytes), Endian::Little) == bytes,
{
    let words = le_words(bytes);
    let image = memory_image(words, Endian::Little);
    assert forall|k: int| 0 <= k < bytes.len() implies image[k] == bytes[k] by {
        let i = k / 4;
        assert(k == 4 * i + k % 4);
        lemma_bytes_of_group(bytes[4 * i], bytes[4 * i + 1], bytes[4 * i + 2], bytes[4 * i + 3]);
    }
    assert(image =~= bytes);
}

proof fn lemma_bytes_of_group(b0: u8, b1: u8, b2: u8, b3: u8)
    ensures
        ({
            let word = (b0 + 256 * b1 + 65536 * b2 + 16777216 * b3) as u32;
            &&& byte_of(word, 0) == b0
            &&& byte_of(word, 1) == b1
            &&& byte_of(word, 2) == b2
            &&& byte_of(word, 3) == b3
        }),
{
    let word = (b0 + 256 * b1 + 65536 * b2 + 16777216 * b3) as u32;
    assert(word == b0 + 256 * b1 + 65536 * b2 + 16777216 * b3);
    assert(word / 256 == b1 + 256 * b2 + 65536 * b3);
    assert(word / 65536 == b2 + 256 * b3);
    assert(word / 16777216 == b3);
}

/// Grouping bytes into words keeps the number that they stand for.
pub proof fn law_words_keep_the_number(bytes: Seq<u8>)
    requires
        bytes.len() % 4 == 0,
    ensures
        words_value(le_words(bytes)) == le_value(bytes),
    decreases bytes.len(),
{
    let words = le_words(bytes);
    if bytes.len() > 0 {
        let rest = bytes.skip(4);
        law_words_keep_the_number(rest);
        assert(words.drop_first() =~= le_words(rest));
        let r1 = bytes.drop_first();
        let r2 = r1.drop_first();
        let r3 = r2.drop_first();
        assert(r3.drop_first() =~= rest);
        assert(le_value(r3) == bytes[3] as nat + 256 * le_value(rest));
        assert(le_value(r2) == bytes[2] as nat + 256 * le_value(r3));
        assert(le_value(r1) == bytes[1] as nat + 256 * le_value(r2));
    }
}

/// The sixteen words of a target, in base 2^32 and least significant first, stand for the target.
pub proof fn law_target_words_carry_the_target(target: Uint512)
    ensures
        le_words(le_bytes(target@, 64)).len() == 16,
        words_value(le_words(le_bytes(target@, 64))) == target@,
{
    lemma_at_most_max(target);
    law_bytes_of_a_number_read_back(target@, 64);
    law_words_keep_the_number(le_bytes(target@, 64));
}

/// The flag counts as set as soon as one of its four bytes is not zero.
pub proof fn law_flag_is_set_by_any_byte(data: Seq<u8>)
    requires
        data.len() >= 4,
    ensures
        flag_set(data) <==> data.take(4) != seq![0u8, 0u8, 0u8, 0u8],
        flag_set(data) <==> exists|k: int| 0 <= k < 4 && #[trigger] data[k] != 0,
{
    let flag = data.take(4);
    assert(flag[0] == data[0] && flag[1] == data[1] && flag[2] == data[2] && flag[3] == data[3]);
    if !flag_set(data) {
        assert(flag =~= seq![0u8, 0u8, 0u8, 0u8]);
    }
}

/// A nonce and a hash that were written into the results, least significant byte first, are read
/// back as they were, whatever the flag says.
pub proof fn law_results_are_read_as_written(nonce: nat, hash: nat, data: Seq<u8>)
    requires
        nonce < pow2(512),
        hash < pow2(512),
        data.len() == 132,
        data.subrange(4, 68) == le_bytes(nonce, 64),
        data.subrange(68, 132) == le_bytes(hash, 64),
    ensures
        nonce_field(data) == nonce,
        hash_field(data) == hash,
{
    law_bytes_of_a_number_read_back(nonce, 64);
    law_bytes_of_a_number_read_back(hash, 64);
}

/// Every byte of the nonce and of the hash in the results counts: results whose nonces are the same
/// number have the same nonce bytes, and so for the hash.
pub proof fn law_every_result_byte_counts(a: Seq<u8>, b: Seq<u8>)
    requires
        a.len() == 132,
        b.len() == 132,
    ensures
        nonce_field(a) == nonce_field(b) ==> a.subrange(4, 68) == b.subrange(4, 68),
        hash_field(a) == hash_field(b) ==> a.subrange(68, 132) == b.subrange(68, 132),
{
    law_number_of_bytes_written_back(a.subrange(4, 68));
    law_number_of_bytes_written_back(b.subrange(4, 68));
    law_number_of_bytes_written_back(a.subrange(68, 132));
    law_number_of_bytes_written_back(b.subrange(68, 132));
}

/// On a little-endian machine a word lies in memory with its least significant byte first, on a
/// big-endian one with its most significant byte first; words follow each other without gaps.
pub proof fn law_memory_image_of_words(words: Seq<u32>, i: int)
    requires
        0 <= i < words.len(),
    ensures
        memory_image(words, Endian::Little).len() == 4 * words.len(),
        memory_image(words, Endian::Big).len() == 4 * words.len(),
        ({
            let little = memory_image(words, Endian::Little).subrange(4 * i, 4 * i + 4);
            let big = memory_image(words, Endian::Big).subrange(4 * i, 4 * i + 4);
            &&& words[i] == little[0] + 0x100 * little[1] + 0x1_0000 * little[2] + 0x100_0000
                * little[3]
            &&& words[i] == big[3] + 0x100 * big[2] + 0x1_0000 * big[1] + 0x100_0000 * big[0]
        }),
{
    let w = words[i];
    let little = memory_image(words, Endian::Little);
    let big = memory_image(words, Endian::Big);
    assert forall|k: int| 0 <= k < 4 implies #[trigger] ((4 * i + k) / 4) == i && (4 * i + k) % 4
        == k by {}
    assert(little[4 * i] == byte_of(w, 0) && little[4 * i + 1] == byte_of(w, 1) && little[4 * i + 2]
        == byte_of(w, 2) && little[4 * i + 3] == byte_of(w, 3));
    assert(big[4 * i] == byte_of(w, 3) && big[4 * i + 1] == byte_of(w, 2) && big[4 * i + 2]
        == byte_of(w, 1) && big[4 * i + 3] == byte_of(w, 0));
    assert(w == byte_of(w, 0) + 0x100 * byte_of(w, 1) + 0x1_0000 * byte_of(w, 2) + 0x100_0000
        * byte_of(w, 3)) by {
        let a = w / 256;
        let b = w / 65536;
        assert(a / 256 == b);
        assert(b / 256 == w / 16777216);
    }
}

/// The words of a byte string stand for it group by group: the first byte of each four is the least
/// significant one.
pub proof fn law_words_of_bytes(bytes: Seq<u8>, i: int)
    requires
        bytes.len() % 4 == 0,
        0 <= i < bytes.len() / 4,
    ensures
        le_words(bytes).len() == bytes.len() / 4,
        le_words(bytes)[i] == bytes[4 * i] + 0x100 * bytes[4 * i + 1] + 0x1_0000 * bytes[4 * i + 2]
            + 0x100_0000 * bytes[4 * i + 3],
{
}

/// What `read_results` returns for a buffer into which a flag, a nonce and a hash were written,
/// least significant byte first: nothing where the flag is clear, else that nonce and that hash.
pub proof fn law_read_gives_what_was_written(
    data: &[u8],
    nonce: nat,
    hash: nat,
    found: Option<Solution>,
)
    requires
        nonce < pow2(512),
        hash < pow2(512),
        data@.len() == 132,
        data@.subrange(4, 68) == le_bytes(nonce, 64),
        data@.subrange(68, 132) == le_bytes(hash, 64),
        call_ensures(read_results, (data,), found),
    ensures
        found is None <==> data@.take(4) == seq![0u8, 0u8, 0u8, 0u8],
        found matches Some(s) ==> s.nonce@ == nonce && s.hash@ == hash,
{
    law_results_are_read_as_written(nonce, hash, data@);
}

/// What the host uploads: for the header the words of its bytes, for the target the words of its
/// bytes least significant first, for the start nonce those bytes themselves, and for the
/// configuration its three words. On a little-endian machine the header lies there as it is, and
/// the target with its least significant byte first.
pub proof fn law_uploaded_images(
    header: &[u8; 32],
    header_bytes: Vec<u8>,
    target: Uint512,
    target_bytes: Vec<u8>,
    batch_start: Uint512,
    start_bytes: [u8; 64],
    config: &[u32; 3],
    config_bytes: Vec<u8>,
)
    requires
        call_ensures(header_image, (header,), header_bytes),
        call_ensures(target_image, (target,), target_bytes),
        call_ensures(start_nonce_image, (batch_start,), start_bytes),
        call_ensures(dispatch_config_image, (config,), config_bytes),
    ensures
        header_bytes@ == memory_image(le_words(header@), endianness()),
        endianness() is Little ==> header_bytes@ == header@,
        target_bytes@ == memory_image(le_words(le_bytes(target@, 64)), endianness()),
        endianness() is Little ==> target_bytes@ == le_bytes(target@, 64),
        start_bytes@ == le_bytes(batch_start@, 64),
        config_bytes@ == memory_image(config@, endianness()),
        header_bytes@.len() == 32,
        target_bytes@.len() == 64,
        start_bytes@.len() == 64,
        config_bytes@.len() == 12,
{
}

/// The buffers hold 8, 16, 16, 33 and 3 words, and no two of them are bound to the same place.
pub proof fn law_buffer_sizes_and_bindings()
    ensures
        HEADER_BUFFER_SIZE == 32,
        TARGET_BUFFER_SIZE == 64,
        START_NONCE_BUFFER_SIZE == 64,
        RESULTS_BUFFER_SIZE == 132,
        DISPATCH_CONFIG_BUFFER_SIZE == 12,
        RESULTS_BINDING == 0,
        HEADER_BINDING == 1,
        START_NONCE_BINDING == 2,
        TARGET_BINDING == 3,
        DISPATCH_CONFIG_BINDING == 4,
{
}

} // verus!
