//! Word-wise access to tracee memory. ptrace reads and writes one machine
//! word at a time; these helpers turn byte ranges into such word transfers.
//! The word reader and writer are handed in, so that the same logic serves a
//! live tracee and a buffer in memory.

use crate::wire::{
    le_bytes, le_value, lemma_le_bytes_len, lemma_le_bytes_of_value, lemma_le_value_bound,
    lemma_pow256_widths, push_le, read_le,
};
use vstd::prelude::*;

verus! {

/// Size in bytes of the word that ptrace transfers on x86_64: a `usize`.
pub const WORD: usize = 8;

/// Number of words that cover `len` bytes.
pub open spec fn word_count(len: nat) -> nat {
    ((len + 7) / 8) as nat
}

/// The bytes that reading `words` one after another yields, cut to `len`.
pub open spec fn gathered(words: Seq<usize>, len: nat) -> Seq<u8> {
    Seq::new(len, |i: int| le_bytes(words[i / 8] as nat, 8)[i % 8])
}

/// Number of whole words in `len` bytes.
pub open spec fn full_words(len: nat) -> nat {
    len / 8
}

/// Word `k` of `src`, for a whole word.
pub open spec fn word_of(src: Seq<u8>, k: int) -> nat {
    le_value(src.subrange(8 * k, 8 * k + 8))
}

/// The last word that writing `src` stores: the bytes of `src` after its
/// whole words, completed by the bytes of `current` that follow them.
pub open spec fn tail_word(src: Seq<u8>, current: nat) -> nat {
    let rest = src.skip((8 * full_words(src.len())) as int);
    le_value(rest + le_bytes(current, 8).skip(rest.len() as int))
}

/// Fills `dest` from memory at `src`, one word read by `get` for each eight
/// bytes (the last word cut to what remains). Stops at the first error of
/// `get` and returns it.
pub fn getmem<G, E>(src: usize, dest: &mut [u8], get: G) -> (r: Result<usize, E>) where
    G: Fn(usize) -> Result<usize, E>,

    requires
        src + old(dest)@.len() <= usize::MAX + 1,
        forall|a: usize| get.requires((a,)),
    ensures
        final(dest)@.len() == old(dest)@.len(),
        match r {
            Ok(n) => n == old(dest)@.len() && exists|words: Seq<usize>|
                {
                    &&& words.len() == word_count(old(dest)@.len())
                    &&& forall|k: int|
                        0 <= k < words.len() ==> get.ensures(
                            ((src + 8 * k) as usize,),
                            Ok(#[trigger] words[k]),
                        )
                    &&& final(dest)@ == gathered(words, old(dest)@.len())
                },
            Err(e) => exists|k: int|
                0 <= k < word_count(old(dest)@.len()) && #[trigger] get.ensures(
                    ((src + 8 * k) as usize,),
                    Err(e),
                ),
        },
{
    let len = dest.len();
    let ghost words: Seq<usize> = Seq::empty();
    let mut k: usize = 0;
    let mut pos: usize = 0;
    while pos < len
        invariant
            len == dest@.len(),
            len == old(dest)@.len(),
            src + len <= usize::MAX + 1,
            forall|a: usize| get.requires((a,)),
            pos <= len,
            pos < len ==> pos == 8 * k,
            pos == len ==> 8 * k >= len,
            k > 0 ==> 8 * (k - 1) < len,
            words.len() == k,
            forall|j: int| 0 <= j < k ==> get.ensures(((src + 8 * j) as usize,), Ok(#[trigger] words[j])),
            forall|i: int| 0 <= i < pos ==> #[trigger] dest@[i] == le_bytes(words[i / 8] as nat, 8)[i % 8],
        decreases len - pos,
    {
        let w = match get(src + pos) {
            Ok(w) => w,
            Err(e) => {
                assert(get.ensures(((src + 8 * k) as usize,), Err(e)));
                return Err(e);
            },
        };
        let mut bytes: Vec<u8> = Vec::new();
        proof {
            lemma_pow256_widths();
        }
        push_le(&mut bytes, w as u128, 8);
        proof {
            lemma_le_bytes_len(w as nat, 8);
            words = words.push(w);
        }
        let n: usize = if len - pos < 8 {
            len - pos
        } else {
            8
        };
        let mut j: usize = 0;
        while j < n
            invariant
                len == dest@.len(),
                pos < len,
                pos == 8 * k,
                n <= 8,
                pos + n <= len,
                j <= n,
                bytes@ == le_bytes(w as nat, 8),
                bytes@.len() == 8,
                words.len() == k + 1,
                words[k as int] == w,
                forall|i: int| 0 <= i < pos + j ==> #[trigger] dest@[i] == le_bytes(words[i / 8] as nat, 8)[i % 8],
            decreases n - j,
        {
            dest[pos + j] = bytes[j];
            proof {
                let i = pos + j;
                assert(i / 8 == k && i % 8 == j) by {
                    assert(i == 8 * k + j);
                }
            }
            j = j + 1;
        }
        assert forall|i: int| 0 <= i < pos implies #[trigger] dest@[i] == le_bytes(words[i / 8] as nat, 8)[i % 8] by {
            assert(i / 8 < k);
        }
        pos = pos + n;
        k = k + 1;
    }
    proof {
        assert(k == word_count(len as nat));
        assert(dest@ =~= gathered(words, len as nat));
    }
    Ok(len)
}

/// Writes `src` to memory at `dest`: each whole word of `src` by `set`, then
/// the bytes that remain (possibly none) by reading the word that follows
/// with `get`, replacing its first bytes and writing it back with `set`, so
/// that the bytes after the range are kept. Stops at the first error.
pub fn setmem<G, S, E>(src: &[u8], dest: usize, get: G, set: S) -> (r: Result<(), E>) where
    G: Fn(usize) -> Result<usize, E>,
    S: Fn(usize, usize) -> Result<(), E>,

    requires
        dest + 8 * full_words(src@.len()) <= usize::MAX,
        forall|a: usize| get.requires((a,)),
        forall|a: usize, w: usize| set.requires((a, w)),
    ensures
        match r {
            Ok(_) => {
                &&& forall|k: int|
                    0 <= k < full_words(src@.len()) ==> #[trigger] set.ensures(
                        ((dest + 8 * k) as usize, word_of(src@, k) as usize),
                        Ok(()),
                    )
                &&& exists|w: usize|
                    {
                        &&& #[trigger] get.ensures(
                            ((dest + 8 * full_words(src@.len())) as usize,),
                            Ok(w),
                        )
                        &&& set.ensures(
                            (
                                (dest + 8 * full_words(src@.len())) as usize,
                                tail_word(src@, w as nat) as usize,
                            ),
                            Ok(()),
                        )
                    }
            },
            Err(e) => (exists|a: usize, res: Result<usize, E>|
                #[trigger] get.ensures((a,), res) && res is Err && res->Err_0 == e) || (exists|
                a: usize,
                w: usize,
            | #[trigger] set.ensures((a, w), Err(e))),
        },
{
    let len = src.len();
    let full = len / 8;
    let mut k: usize = 0;
    let mut addr: usize = dest;
    proof {
        lemma_pow256_widths();
    }
    while k < full
        invariant
            len == src@.len(),
            full == full_words(len as nat),
            dest + 8 * full <= usize::MAX,
            forall|a: usize, w: usize| set.requires((a, w)),
            k <= full,
            addr == dest + 8 * k,
            forall|j: int|
                0 <= j < k ==> #[trigger] set.ensures(
                    ((dest + 8 * j) as usize, word_of(src@, j) as usize),
                    Ok(()),
                ),
        decreases full - k,
    {
        let v = read_le(src, 8 * k, 8);
        proof {
            lemma_le_value_bound(src@.subrange(8 * k, 8 * k + 8));
        }
        let word = v as usize;
        assert(word == word_of(src@, k as int) as usize);
        let res = set(addr, word);
        assert(set.ensures((addr, word), res));
        assert(addr == (dest + 8 * k) as usize);
        match res {
            Ok(u) => {
                assert(u == ());
                assert(res == Ok::<(), E>(()));
                assert(set.ensures((addr, word), Ok::<(), E>(())));
                assert(set.ensures(((dest + 8 * k) as usize, word_of(src@, k as int) as usize), Ok(())));
            },
            Err(e) => {
                assert(set.ensures((addr, word), Err(e)));
                return Err(e);
            },
        }
        addr = addr + 8;
        k = k + 1;
    }
    let got = get(addr);
    let current = match got {
        Ok(w) => w,
        Err(e) => {
            assert(get.ensures((addr,), got));
            return Err(e);
        },
    };
    let mut bytes: Vec<u8> = Vec::new();
    push_le(&mut bytes, current as u128, 8);
    proof {
        lemma_le_bytes_len(current as nat, 8);
    }
    let start = 8 * full;
    let rem = len - start;
    let ghost rest = src@.skip(start as int);
    assert(rest.len() == rem);
    let mut j: usize = 0;
    while j < rem
        invariant
            len == src@.len(),
            start + rem == len,
            rem < 8,
            j <= rem,
            rest == src@.skip(start as int),
            bytes@.len() == 8,
            bytes@.subrange(0, j as int) == rest.subrange(0, j as int),
            bytes@.skip(rem as int) == le_bytes(current as nat, 8).skip(rem as int),
        decreases rem - j,
    {
        bytes.set(j, src[start + j]);
        assert(bytes@.subrange(0, (j + 1) as int) =~= rest.subrange(0, (j + 1) as int));
        assert(bytes@.skip(rem as int) =~= le_bytes(current as nat, 8).skip(rem as int));
        j = j + 1;
    }
    proof {
        assert(rest.subrange(0, rem as int) =~= rest);
        assert(bytes@ =~= bytes@.subrange(0, rem as int) + bytes@.skip(rem as int));
        assert(bytes@ =~= rest + le_bytes(current as nat, 8).skip(rest.len() as int));
    }
    let v = read_le(bytes.as_slice(), 0, 8);
    proof {
        assert(bytes@.subrange(0, 8) =~= bytes@);
        lemma_le_value_bound(bytes@);
    }
    let word = v as usize;
    assert(word == tail_word(src@, current as nat) as usize);
    match set(addr, word) {
        Ok(u) => {
            assert(u == ());
        },
        Err(e) => {
            assert(set.ensures((addr, word), Err(e)));
            assert(exists|a: usize, w: usize| #[trigger] set.ensures((a, w), Err(e)));
            return Err(e);
        },
    }
    assert(get.ensures(((dest + 8 * full_words(src@.len())) as usize,), Ok(current)));
    Ok(())
}

/// The word of memory `mem` at address `a`.
pub open spec fn peek(mem: Seq<u8>, a: int) -> nat {
    le_value(mem.subrange(a, a + 8))
}

/// Memory `mem` with the word at address `a` replaced by `w`.
pub open spec fn poke(mem: Seq<u8>, a: int, w: nat) -> Seq<u8> {
    mem.subrange(0, a) + le_bytes(w, 8) + mem.subrange(a + 8, mem.len() as int)
}

/// Memory `mem` after the first `k` whole words of `src` are written at
/// `dest`, as `setmem` hands them to its writer.
pub open spec fn poke_words(mem: Seq<u8>, dest: int, src: Seq<u8>, k: nat) -> Seq<u8>
    decreases k,
{
    if k == 0 {
        mem
    } else {
        poke(poke_words(mem, dest, src, (k - 1) as nat), dest + 8 * (k - 1), word_of(src, k - 1))
    }
}

/// Memory `mem` after `setmem` writes `src` at `dest` through a writer and a
/// reader of its words: the whole words, then the last word completed by
/// what it held.
pub open spec fn setmem_effect(mem: Seq<u8>, dest: int, src: Seq<u8>) -> Seq<u8> {
    let full = full_words(src.len());
    let m = poke_words(mem, dest, src, full);
    let t = dest + 8 * full;
    poke(m, t, tail_word(src, peek(m, t)))
}

proof fn lemma_poke_words(mem: Seq<u8>, dest: int, src: Seq<u8>, k: nat)
    requires
        0 <= dest,
        8 * k <= src.len(),
        dest + 8 * k <= mem.len(),
    ensures
        poke_words(mem, dest, src, k) == mem.subrange(0, dest) + src.subrange(0, 8 * k as int)
            + mem.subrange(dest + 8 * k, mem.len() as int),
    decreases k,
{
    if k > 0 {
        let j = (k - 1) as nat;
        lemma_poke_words(mem, dest, src, j);
        let piece = src.subrange(8 * j as int, 8 * j as int + 8);
        lemma_le_bytes_of_value(piece);
        let m = poke_words(mem, dest, src, j);
        assert(m.len() == mem.len());
        assert(poke(m, dest + 8 * j, word_of(src, j as int)) =~= mem.subrange(0, dest)
            + src.subrange(0, 8 * k as int) + mem.subrange(dest + 8 * k, mem.len() as int));
    }
}

/// Writing `src` at `dest` with `setmem` leaves `src` there and every other
/// byte of memory as it was.
pub proof fn lemma_setmem_writes(mem: Seq<u8>, dest: int, src: Seq<u8>)
    requires
        0 <= dest,
        dest + 8 * full_words(src.len()) + 8 <= mem.len(),
    ensures
        setmem_effect(mem, dest, src) == mem.subrange(0, dest) + src + mem.subrange(
            dest + src.len(),
            mem.len() as int,
        ),
{
    let full = full_words(src.len());
    let t = dest + 8 * full;
    let rem = src.len() - 8 * full;
    lemma_poke_words(mem, dest, src, full);
    let m = poke_words(mem, dest, src, full);
    assert(m.subrange(t, t + 8) =~= mem.subrange(t, t + 8));
    let old_word = m.subrange(t, t + 8);
    lemma_le_bytes_of_value(old_word);
    let rest = src.skip(8 * full as int);
    let merged = rest + le_bytes(peek(m, t), 8).skip(rest.len() as int);
    assert(merged =~= rest + mem.subrange(t + rem, t + 8));
    lemma_le_bytes_of_value(merged);
    assert(setmem_effect(mem, dest, src) =~= mem.subrange(0, dest) + src + mem.subrange(
        dest + src.len(),
        mem.len() as int,
    ));
}

/// Reading `len` bytes at `src` with `getmem`, from a reader that hands out
/// the words of memory `mem`, gives the bytes of `mem` there.
pub proof fn lemma_getmem_reads(mem: Seq<u8>, src: int, len: nat, words: Seq<usize>)
    requires
        0 <= src,
        src + 8 * word_count(len) <= mem.len(),
        words.len() == word_count(len),
        forall|k: int| 0 <= k < words.len() ==> (#[trigger] words[k]) as nat == peek(mem, src + 8 * k),
    ensures
        gathered(words, len) == mem.subrange(src, src + len),
{
    assert forall|i: int| 0 <= i < len implies #[trigger] gathered(words, len)[i] == mem.subrange(
        src,
        src + len,
    )[i] by {
        let k = i / 8;
        let a = src + 8 * k;
        assert(0 <= k < words.len());
        assert(a + 8 <= mem.len());
        lemma_le_bytes_of_value(mem.subrange(a, a + 8));
        assert(le_bytes(words[k] as nat, 8)[i % 8] == mem.subrange(a, a + 8)[i % 8]);
    }
    assert(gathered(words, len) =~= mem.subrange(src, src + len));
}

/// Reading back with `getmem` what `setmem` wrote gives the bytes written.
pub proof fn lemma_read_after_write(mem: Seq<u8>, dest: int, src: Seq<u8>, words: Seq<usize>)
    requires
        0 <= dest,
        dest + 8 * word_count(src.len()) + 8 <= mem.len(),
        words.len() == word_count(src.len()),
        forall|k: int|
            0 <= k < words.len() ==> (#[trigger] words[k]) as nat == peek(
                setmem_effect(mem, dest, src),
                dest + 8 * k,
            ),
    ensures
        gathered(words, src.len()) == src,
{
    lemma_setmem_writes(mem, dest, src);
    let after = setmem_effect(mem, dest, src);
    lemma_getmem_reads(after, dest, src.len(), words);
    assert(after.subrange(dest, dest + src.len()) =~= src);
}

/// Writing back with `setmem` the bytes that were read leaves memory as it
/// was.
pub proof fn lemma_write_back(mem: Seq<u8>, dest: int, len: nat)
    requires
        0 <= dest,
        dest + 8 * full_words(len) + 8 <= mem.len(),
        dest + len <= mem.len(),
    ensures
        setmem_effect(mem, dest, mem.subrange(dest, dest + len)) == mem,
{
    let src = mem.subrange(dest, dest + len);
    lemma_setmem_writes(mem, dest, src);
    assert(mem.subrange(0, dest) + src + mem.subrange(dest + len, mem.len() as int) =~= mem);
}

} // verus!
