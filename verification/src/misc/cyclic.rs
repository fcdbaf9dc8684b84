//! De Bruijn sequences and cyclic patterns: byte strings in which every
//! window of a given length occurs once, so that a window found in a crash
//! dump tells its offset in the pattern.

use crate::error::ErrorKind;
use crate::text::push_char;
use vstd::prelude::*;

verus! {

/// The letter that a word of period `p` repeats next: the one `p` places
/// back, or the smallest letter where the word is shorter than that.
pub open spec fn repeated(word: Seq<u8>, p: int) -> u8 {
    if 0 <= word.len() - p < word.len() {
        word[word.len() - p]
    } else {
        0
    }
}

/// The words that extend `word`, of period `p`, to length `n` over the
/// letters below `end`: every extension that is a prenecklace, in
/// lexicographic order.  Each contributes its first `p` letters where its
/// period `p` divides `n`.
pub open spec fn db(word: Seq<u8>, p: int, n: int, end: u8) -> Seq<u8>
    decreases n - word.len(), 1int, 0int,
{
    if word.len() >= n {
        if 0 < p <= word.len() && n % p == 0 {
            word.take(p)
        } else {
            Seq::empty()
        }
    } else {
        let c = repeated(word, p);
        db(word.push(c), p, n, end) + db_rest(word, n, end, c + 1)
    }
}

/// The extensions of `word` by a letter from `j` on: each starts a new period
/// as long as the word it extends.
pub open spec fn db_rest(word: Seq<u8>, n: int, end: u8, j: int) -> Seq<u8>
    decreases n - word.len(), 0int, end - j,
{
    if j >= end || j < 0 || word.len() >= n {
        Seq::empty()
    } else {
        db(word.push(j as u8), word.len() as int + 1, n, end) + db_rest(word, n, end, j + 1)
    }
}

/// The number of letters that fit in a byte-sized letter count.
pub open spec fn letters(k: usize) -> u8 {
    (k % 256) as u8
}

/// The sequence that the prenecklaces of length `n` over the letters `0..k`
/// spell out, taken in lexicographic order.  By the theorem of Fredricksen
/// and Maiorana it is a De Bruijn sequence, as [`is_de_bruijn`] states it:
/// read cyclically, every word of length `n` occurs in it once.  This module
/// states the sequence, the property, and what follows from the property; it
/// does not prove the theorem.
pub open spec fn de_bruijn(k: usize, n: usize) -> Seq<u8> {
    db(Seq::empty(), 1, n as int, letters(k))
}

/// Every letter is below `end`, or the smallest letter.
pub open spec fn within(word: Seq<u8>, end: u8) -> bool {
    forall|i: int| 0 <= i < word.len() ==> (#[trigger] word[i]) == 0 || word[i] < end
}

/// Generates the part of a De Bruijn sequence that extends the word in
/// `a[1..t]`, of period `p`, and appends it to `sequence`.
pub fn _db(t: usize, p: usize, n: usize, k: usize, sequence: &mut Vec<u8>, a: &mut Vec<u8>)
    requires
        n >= 1,
        1 <= p <= t <= n + 1,
        p < t || t == 1,
        n < old(a).len(),
        old(a)[0] == 0,
        within(old(a)@.subrange(1, t as int), letters(k)),
        within(old(sequence)@, letters(k)),
    ensures
        final(a).len() == old(a).len(),
        final(a)@.take(t as int) == old(a)@.take(t as int),
        final(sequence)@ == old(sequence)@ + db(
            old(a)@.subrange(1, t as int),
            p as int,
            n as int,
            letters(k),
        ),
        within(final(sequence)@, letters(k)),
    decreases n + 1 - t,
{
    let ghost word = a@.subrange(1, t as int);
    let ghost end = letters(k);
    if t > n {
        if n % p == 0 {
            let mut i: usize = 1;
            while i <= p
                invariant
                    1 <= i <= p + 1,
                    p < t,
                    t <= a.len(),
                    a@ == old(a)@,
                    end == letters(k),
                    word == a@.subrange(1, t as int),
                    within(word, end),
                    within(sequence@, end),
                    sequence@ == old(sequence)@ + word.take(i - 1),
                decreases p + 1 - i,
            {
                assert(word[i - 1] == a[i as int]);
                sequence.push(a[i]);
                i += 1;
            }
        }
    } else {
        let c = a[t - p];
        assert(c == repeated(word, p as int));
        a.set(t, c);
        assert(a@.subrange(1, t + 1) =~= word.push(c));
        _db(t + 1, p, n, k, sequence, a);
        assert(a@.take(t + 1)[0] == 0);
        let ghost first = sequence@;
        let end_letter = (k % 256) as u8;
        let start = c + 1;
        let mut j = start;
        while j < end_letter
            invariant
                start <= j,
                j <= end_letter || j == start,
                end_letter == end,
                end == letters(k),
                t <= n < a.len(),
                1 <= t,
                a.len() == old(a).len(),
                a[0] == 0,
                a@.take(t as int) == old(a)@.take(t as int),
                word == old(a)@.subrange(1, t as int),
                word.len() == t - 1,
                within(word, end),
                within(sequence@, end),
                first + db_rest(word, n as int, end, start as int) == sequence@ + db_rest(
                    word,
                    n as int,
                    end,
                    j as int,
                ),
            decreases end_letter - j,
        {
            a.set(t, j);
            assert(a@.subrange(1, t + 1) =~= word.push(j)) by {
                assert(old(a)@.take(t as int).subrange(1, t as int) =~= word);
            }
            _db(t + 1, t, n, k, sequence, a);
            assert(a@.take(t + 1)[0] == 0);
            j += 1;
        }
    }
}

/// The De Bruijn sequence over the letters `0..k` for words of length `n`.
pub fn de_bruijn_int(k: usize, n: usize) -> (sequence: Vec<u8>)
    requires
        k >= 2,
        n >= 1,
        k * n <= usize::MAX,
    ensures
        sequence@ == de_bruijn(k, n),
        within(sequence@, letters(k)),
{
    let mut sequence: Vec<u8> = Vec::new();
    let mut a: Vec<u8> = Vec::new();
    assert(n < k * n) by (nonlinear_arith)
        requires
            k >= 2,
            n >= 1,
    ;
    let size = k * n;
    let mut i: usize = 0;
    while i < size
        invariant
            i <= size,
            a.len() == i,
            forall|j: int| 0 <= j < i ==> a[j] == 0,
        decreases size - i,
    {
        a.push(0);
        i += 1;
    }
    assert(a@.subrange(1, 1) =~= Seq::<u8>::empty());
    _db(1, 1, n, k, &mut sequence, &mut a);
    sequence
}

/// A sequence of letters spelled out in an alphabet, each byte of the
/// alphabet taken as the character of that code.
pub open spec fn spelled(sequence: Seq<u8>, alphabet: Seq<u8>) -> Seq<char> {
    Seq::new(sequence.len(), |i: int| alphabet[sequence[i] as int] as char)
}

/// The De Bruijn sequence over `alphabet` for words of length `n`, as text.
pub fn de_bruijn_string(alphabet: &[u8], n: usize) -> (text: String)
    requires
        alphabet@.len() >= 2,
        n >= 1,
        alphabet@.len() * n <= usize::MAX,
    ensures
        text@ == spelled(de_bruijn(alphabet@.len() as usize, n), alphabet@),
{
    let k = alphabet.len();
    let sequence = de_bruijn_int(k, n);
    let mut text = String::new();
    let mut i: usize = 0;
    while i < sequence.len()
        invariant
            i <= sequence.len(),
            k == alphabet@.len(),
            k >= 2,
            within(sequence@, letters(k)),
            text@ == spelled(sequence@, alphabet@).take(i as int),
        decreases sequence.len() - i,
    {
        let e = sequence[i];
        let c = alphabet[e as usize] as char;
        push_char(&mut text, c);
        i += 1;
    }
    text
}

/// `subseq` fills the window of the generator that starts at `pos`.
pub open spec fn window_at(subseq: Seq<u8>, generator: Seq<u8>, pos: int) -> bool {
    0 <= pos && pos + subseq.len() <= generator.len() && generator.subrange(
        pos,
        pos + subseq.len(),
    ) == subseq
}

/// `found` is the first position at which `subseq` fills a window of the
/// generator, if there is one.  The empty sequence is found at position one
/// of any generator that is not empty.
pub open spec fn first_window(subseq: Seq<u8>, generator: Seq<u8>, found: Option<usize>) -> bool {
    if subseq.len() == 0 {
        found == (if generator.len() == 0 {
            None
        } else {
            Some(1usize)
        })
    } else {
        match found {
            Some(pos) => window_at(subseq, generator, pos as int) && forall|q: int|
                0 <= q < pos ==> !window_at(subseq, generator, q),
            None => forall|q: int| !window_at(subseq, generator, q),
        }
    }
}

/// Where two answers are both the first window, they are the same.
pub proof fn lemma_first_window_unique(
    subseq: Seq<u8>,
    generator: Seq<u8>,
    a: Option<usize>,
    b: Option<usize>,
)
    requires
        first_window(subseq, generator, a),
        first_window(subseq, generator, b),
    ensures
        a == b,
{
    if subseq.len() > 0 {
        match (a, b) {
            (Some(x), Some(y)) => {
                if x < y {
                } else if y < x {
                }
            },
            (Some(x), None) => {
            },
            (None, Some(y)) => {
            },
            (None, None) => {},
        }
    }
}

/// The first position of `subseq` in the generator.
pub fn _gen_find(subseq: &[u8], generator: &[u8]) -> (found: Option<usize>)
    ensures
        first_window(subseq@, generator@, found),
{
    let m = subseq.len();
    let len = generator.len();
    if m == 0 {
        return if len == 0 {
            None
        } else {
            Some(1)
        };
    }
    if m > len {
        return None;
    }
    let mut pos: usize = 0;
    while pos <= len - m
        invariant
            0 < m <= len,
            m == subseq@.len(),
            len == generator@.len(),
            pos <= len - m + 1,
            forall|q: int| 0 <= q < pos ==> !window_at(subseq@, generator@, q),
        decreases len - m + 1 - pos,
    {
        let mut i: usize = 0;
        let mut same = true;
        while i < m
            invariant
                0 < m <= len,
                m == subseq@.len(),
                len == generator@.len(),
                pos <= len - m,
                i <= m,
                same ==> forall|j: int| 0 <= j < i ==> generator@[pos + j] == subseq@[j],
                !same ==> exists|j: int| 0 <= j < m && generator@[pos + j] != subseq@[j],
            decreases m - i,
        {
            if generator[pos + i] != subseq[i] {
                same = false;
            }
            i += 1;
        }
        if same {
            assert(generator@.subrange(pos as int, pos + m) =~= subseq@);
            return Some(pos);
        }
        pos += 1;
    }
    None
}

/// `base` to the power of `exp`.
pub open spec fn power(base: nat, exp: nat) -> nat
    decreases exp,
{
    if exp == 0 {
        1
    } else {
        base * power(base, (exp - 1) as nat)
    }
}

proof fn lemma_power_grows(base: nat, exp: nat)
    requires
        base >= 2,
        exp >= 1,
    ensures
        base * exp <= power(base, exp),
    decreases exp,
{
    if exp > 1 {
        lemma_power_grows(base, (exp - 1) as nat);
        let below = power(base, (exp - 1) as nat);
        assert(base * exp <= base * below) by (nonlinear_arith)
            requires
                base >= 2,
                exp >= 2,
                base * (exp - 1) <= below,
        ;
    } else {
        assert(base * 1 == base * power(base, 0)) by (nonlinear_arith)
            requires
                power(base, 0) == 1,
        ;
    }
}

/// The letter of the pattern alphabet `abcd` with the given index.
pub open spec fn pattern_letter(index: u8) -> u8 {
    (97 + index) as u8
}

/// The cyclic pattern for windows of length `n`: the De Bruijn sequence over
/// four letters, spelled in `abcd`.
pub open spec fn cyclic_pattern(n: usize) -> Seq<u8> {
    Seq::new(de_bruijn(4, n).len(), |i: int| pattern_letter(de_bruijn(4, n)[i]))
}

fn pattern(n: usize) -> (generator: Vec<u8>)
    requires
        n >= 1,
        4 * n <= usize::MAX,
    ensures
        generator@ == cyclic_pattern(n),
{
    let sequence = de_bruijn_int(4, n);
    let mut generator: Vec<u8> = Vec::new();
    let mut i: usize = 0;
    while i < sequence.len()
        invariant
            i <= sequence.len(),
            sequence@ == de_bruijn(4, n),
            within(sequence@, letters(4)),
            generator@ == cyclic_pattern(n).take(i as int),
        decreases sequence.len() - i,
    {
        let e = sequence[i];
        generator.push(97 + e);
        i += 1;
    }
    generator
}

/// The first `length` bytes of the cyclic pattern for windows of length `n`.
/// The pattern has `4^n` windows, and no more can be asked for.
pub fn cyclic(length: usize, n: usize) -> (bytes: Result<Vec<u8>, ErrorKind>)
    requires
        n >= 1,
        power(4, n as nat) <= usize::MAX,
        length <= power(4, n as nat),
    ensures
        match bytes {
            Ok(b) => length <= cyclic_pattern(n).len() && b@ == cyclic_pattern(n).take(
                length as int,
            ),
            Err(e) => e == ErrorKind::SequenceExhausted && length > cyclic_pattern(n).len(),
        },
{
    proof {
        lemma_power_grows(4, n as nat);
    }
    let mut generator = pattern(n);
    if length > generator.len() {
        return Err(ErrorKind::SequenceExhausted);
    }
    generator.truncate(length);
    Ok(generator)
}

/// Every byte is one of `abcd`.
pub open spec fn in_pattern_alphabet(subseq: Seq<u8>) -> bool {
    forall|i: int| 0 <= i < subseq.len() ==> 97 <= #[trigger] subseq[i] <= 100
}

/// The position of a window of length `n` in the cyclic pattern.
pub fn cyclic_find(subseq: &[u8], n: usize) -> (found: Option<usize>)
    requires
        subseq@.len() == n,
        n >= 1,
        4 * n <= usize::MAX,
        in_pattern_alphabet(subseq@),
    ensures
        first_window(subseq@, cyclic_pattern(n), found),
{
    let generator = pattern(n);
    _gen_find(subseq, generator.as_slice())
}

/// The word of length `n` that starts at `at` in `sequence`, read cyclically.
pub open spec fn cyclic_window(sequence: Seq<u8>, at: int, n: int) -> Seq<u8> {
    Seq::new(n as nat, |i: int| sequence[(at + i) % (sequence.len() as int)])
}

/// Every letter of the word is below `k`.
pub open spec fn word_over(word: Seq<u8>, k: int) -> bool {
    forall|i: int| 0 <= i < word.len() ==> (#[trigger] word[i]) < k
}

/// `sequence` is a De Bruijn sequence for the words of length `n` over the
/// letters below `k`: read cyclically, every such word fills a window, and no
/// two windows hold the same word.
pub open spec fn is_de_bruijn(sequence: Seq<u8>, k: int, n: int) -> bool {
    &&& forall|word: Seq<u8>|
        word.len() == n && #[trigger] word_over(word, k) ==> exists|at: int|
            0 <= at < sequence.len() && #[trigger] cyclic_window(sequence, at, n) == word
    &&& forall|a: int, b: int|
        0 <= a < b < sequence.len() ==> #[trigger] cyclic_window(sequence, a, n)
            != #[trigger] cyclic_window(sequence, b, n)
}

/// Over words of one letter the generator spells the letters from `j` on.
proof fn lemma_db_rest_letters(end: u8, j: int)
    requires
        0 <= j <= end,
    ensures
        db_rest(Seq::empty(), 1, end, j) == Seq::new((end - j) as nat, |i: int| (j + i) as u8),
    decreases end - j,
{
    let rest = db_rest(Seq::empty(), 1, end, j);
    let letters = Seq::new((end - j) as nat, |i: int| (j + i) as u8);
    if j < end {
        let word = Seq::<u8>::empty().push(j as u8);
        assert(db(word, 1, 1, end) == word.take(1));
        assert(word.take(1) =~= word);
        lemma_db_rest_letters(end, j + 1);
        assert(rest == word + db_rest(Seq::empty(), 1, end, j + 1));
        assert(rest =~= letters);
    } else {
        assert(rest =~= letters);
    }
}

/// Words of one letter: the generator's sequence is the letters in their
/// order, and it is a De Bruijn sequence.
pub proof fn lemma_de_bruijn_of_letters(k: usize)
    requires
        1 <= k <= 255,
    ensures
        de_bruijn(k, 1) == Seq::new(k as nat, |i: int| i as u8),
        is_de_bruijn(de_bruijn(k, 1), k as int, 1),
{
    let end = letters(k);
    let sequence = de_bruijn(k, 1);
    let first = Seq::<u8>::empty().push(0u8);
    assert(repeated(Seq::empty(), 1) == 0);
    assert(db(first, 1, 1, end) == first.take(1));
    assert(first.take(1) =~= first);
    lemma_db_rest_letters(end, 1);
    assert(sequence == first + db_rest(Seq::empty(), 1, end, 1));
    assert(sequence =~= Seq::new(k as nat, |i: int| i as u8));
    assert forall|at: int| 0 <= at < k implies #[trigger] cyclic_window(sequence, at, 1)
        == Seq::<u8>::empty().push(at as u8) by {
        lemma_window_is_part(sequence, at, 1);
        assert(sequence.subrange(at, at + 1) =~= Seq::<u8>::empty().push(at as u8));
    }
    assert forall|word: Seq<u8>| word.len() == 1 && #[trigger] word_over(word, k as int) implies exists|
        at: int,
    |
        0 <= at < sequence.len() && #[trigger] cyclic_window(sequence, at, 1) == word by {
        let at = word[0] as int;
        assert(word =~= Seq::<u8>::empty().push(at as u8));
        assert(cyclic_window(sequence, at, 1) == word);
    }
    assert forall|a: int, b: int| 0 <= a < b < sequence.len() implies #[trigger] cyclic_window(
        sequence,
        a,
        1,
    ) != #[trigger] cyclic_window(sequence, b, 1) by {
        assert(cyclic_window(sequence, a, 1)[0] == a as u8);
        assert(cyclic_window(sequence, b, 1)[0] == b as u8);
    }
}

/// A window that does not reach the end of the sequence is a part of it.
proof fn lemma_window_is_part(sequence: Seq<u8>, at: int, n: int)
    requires
        0 <= n,
        0 <= at,
        at + n <= sequence.len(),
    ensures
        cyclic_window(sequence, at, n) == sequence.subrange(at, at + n),
{
    let window = cyclic_window(sequence, at, n);
    let part = sequence.subrange(at, at + n);
    assert forall|i: int| 0 <= i < n implies #[trigger] window[i] == part[i] by {
        vstd::arithmetic::div_mod::lemma_small_mod((at + i) as nat, sequence.len());
    }
    assert(window =~= part);
}

/// In a De Bruijn sequence a window is found where it was cut: the search
/// for the `n` letters at `pos` gives `pos`.
pub proof fn lemma_cut_window_found(generator: Seq<u8>, k: int, n: int, pos: int)
    requires
        is_de_bruijn(generator, k, n),
        n >= 1,
        0 <= pos,
        pos + n <= generator.len() <= usize::MAX,
    ensures
        first_window(generator.subrange(pos, pos + n), generator, Some(pos as usize)),
{
    let subseq = generator.subrange(pos, pos + n);
    lemma_window_is_part(generator, pos, n);
    assert forall|q: int| 0 <= q < pos implies !window_at(subseq, generator, q) by {
        if window_at(subseq, generator, q) {
            lemma_window_is_part(generator, q, n);
        }
    }
}

/// The generator spells words over its letters: what extends a word over the
/// letters below `end` holds no other letter.
proof fn lemma_db_within(word: Seq<u8>, p: int, n: int, end: u8)
    requires
        within(word, end),
    ensures
        within(db(word, p, n, end), end),
    decreases n - word.len(), 1int, 0int,
{
    if word.len() < n {
        let c = repeated(word, p);
        lemma_db_within(word.push(c), p, n, end);
        lemma_db_rest_within(word, n, end, c + 1);
    }
}

proof fn lemma_db_rest_within(word: Seq<u8>, n: int, end: u8, j: int)
    requires
        within(word, end),
    ensures
        within(db_rest(word, n, end, j), end),
    decreases n - word.len(), 0int, end - j,
{
    if !(j >= end || j < 0 || word.len() >= n) {
        lemma_db_within(word.push(j as u8), word.len() as int + 1, n, end);
        lemma_db_rest_within(word, n, end, j + 1);
    }
}

/// A window of the cyclic pattern is found where it was cut, provided that
/// the generator's sequence over four letters is a De Bruijn sequence.
pub proof fn lemma_cyclic_find_cut(n: usize, pos: int)
    requires
        n >= 1,
        is_de_bruijn(de_bruijn(4, n), 4, n as int),
        0 <= pos,
        pos + n <= cyclic_pattern(n).len() <= usize::MAX,
    ensures
        first_window(
            cyclic_pattern(n).subrange(pos, pos + n),
            cyclic_pattern(n),
            Some(pos as usize),
        ),
{
    let letters = de_bruijn(4, n);
    let pattern = cyclic_pattern(n);
    let subseq = pattern.subrange(pos, pos + n);
    lemma_db_within(Seq::empty(), 1, n as int, 4);
    lemma_cut_window_found(letters, 4, n as int, pos);
    assert forall|q: int| 0 <= q < pos implies !window_at(subseq, pattern, q) by {
        if window_at(subseq, pattern, q) {
            let left = letters.subrange(q, q + n);
            let right = letters.subrange(pos, pos + n);
            assert forall|i: int| 0 <= i < n implies #[trigger] left[i] == right[i] by {
                assert(pattern.subrange(q, q + n)[i] == subseq[i]);
                assert(pattern[q + i] == pattern_letter(letters[q + i]));
                assert(pattern[pos + i] == pattern_letter(letters[pos + i]));
            }
            assert(left =~= right);
            assert(window_at(letters.subrange(pos, pos + n), letters, q));
        }
    }
}

/// The sum of the first `upto` chunk lengths.
pub open spec fn chunk_start(chunks: Seq<usize>, upto: int) -> int
    decreases upto,
{
    if upto <= 0 {
        0
    } else {
        chunk_start(chunks, upto - 1) + chunks[upto - 1]
    }
}

/// The sum of the first chunks does not depend on the chunks after them.
pub proof fn lemma_chunk_start_prefix(a: Seq<usize>, b: Seq<usize>, upto: int)
    requires
        0 <= upto <= a.len(),
        upto <= b.len(),
        a.take(upto) == b.take(upto),
    ensures
        chunk_start(a, upto) == chunk_start(b, upto),
    decreases upto,
{
    if upto > 0 {
        assert(a.take(upto - 1) =~= a.take(upto).take(upto - 1));
        assert(b.take(upto - 1) =~= b.take(upto).take(upto - 1));
        lemma_chunk_start_prefix(a, b, upto - 1);
        assert(a[upto - 1] == a.take(upto)[upto - 1]);
    }
}

/// Hands out a De Bruijn sequence chunk by chunk, and finds windows in the
/// chunks handed out.
#[derive(Debug)]
pub struct CyclicGen {
    _generator: Vec<u8>,
    _alphabet: Vec<u8>,
    _total_length: usize,
    _n: usize,
    _chunks: Vec<usize>,
}

impl CyclicGen {
    /// The letters not handed out yet.
    pub closed spec fn remaining(&self) -> Seq<u8> {
        self._generator@
    }

    /// The alphabet that the generator was made for.
    pub closed spec fn alphabet(&self) -> Seq<u8> {
        self._alphabet@
    }

    /// The window length that the generator was made for.
    pub closed spec fn window(&self) -> usize {
        self._n
    }

    /// The lengths of the chunks handed out, in order.
    pub closed spec fn chunks(&self) -> Seq<usize> {
        self._chunks@
    }

    /// The number of letters handed out.
    pub closed spec fn total_length(&self) -> usize {
        self._total_length
    }

    /// The total length is the sum of the chunks.
    pub closed spec fn wf(&self) -> bool {
        self._total_length == chunk_start(self._chunks@, self._chunks@.len() as int)
    }

    /// A generator of the De Bruijn sequence over as many letters as
    /// `alphabet` has, for windows of length `n`.
    pub fn new(alphabet: &[u8], n: usize) -> (generator: CyclicGen)
        requires
            alphabet@.len() >= 2,
            n >= 1,
            alphabet@.len() * n <= usize::MAX,
        ensures
            generator.wf(),
            generator.remaining() == de_bruijn(alphabet@.len() as usize, n),
            generator.alphabet() == alphabet@,
            generator.window() == n,
            generator.chunks() == Seq::<usize>::empty(),
            generator.total_length() == 0,
    {
        CyclicGen {
            _generator: de_bruijn_int(alphabet.len(), n),
            _alphabet: vstd::slice::slice_to_vec(alphabet),
            _total_length: 0,
            _n: n,
            _chunks: Vec::new(),
        }
    }

    /// The next `length` letters of the sequence.  The sequence has as many
    /// windows as the alphabet's size to the power of the window length, and
    /// no more letters can be asked for in all.
    pub fn get(&mut self, length: usize) -> (chunk: Result<Vec<u8>, ErrorKind>)
        requires
            old(self).wf(),
            old(self).total_length() + length <= power(
                old(self).alphabet().len(),
                old(self).window() as nat,
            ) <= usize::MAX,
        ensures
            final(self).wf(),
            final(self).alphabet() == old(self).alphabet(),
            final(self).window() == old(self).window(),
            match chunk {
                Ok(c) => length <= old(self).remaining().len() && c@ == old(self).remaining().take(
                    length as int,
                ) && final(self).remaining() == old(self).remaining().skip(length as int)
                    && final(self).chunks() == old(self).chunks().push(length) && final(self).total_length() == old(self).total_length() + length,
                Err(e) => e == ErrorKind::SequenceExhausted && length > old(self).remaining().len()
                    && final(self).remaining() == old(self).remaining() && final(self).chunks()
                    == old(self).chunks() && final(self).total_length() == old(self).total_length(),
            },
    {
        if length > self._generator.len() {
            return Err(ErrorKind::SequenceExhausted);
        }
        let rest = self._generator.split_off(length);
        let mut res = rest;
        std::mem::swap(&mut res, &mut self._generator);
        self._chunks.push(length);
        self._total_length = self._total_length + length;
        proof {
            let before = old(self)._chunks@;
            assert(self._chunks@.take(before.len() as int) =~= before.take(before.len() as int));
            lemma_chunk_start_prefix(self._chunks@, before, before.len() as int);
        }
        Ok(res)
    }

    /// Locates a window in the chunks handed out: its position in the whole
    /// pattern, the index of the chunk that holds its first letter, and its
    /// position within that chunk.
    pub fn find(self, subseq: &[u8]) -> (place: Option<(usize, usize, usize)>)
        requires
            self.wf(),
            subseq@.len() == self.window(),
            self.window() >= 1,
            4 * self.window() <= usize::MAX,
            in_pattern_alphabet(subseq@),
            exists|pos: usize|
                first_window(subseq@, cyclic_pattern(self.window()), Some(pos)) && pos
                    < self.total_length(),
        ensures
            match place {
                Some((total, chunk, inside)) => first_window(
                    subseq@,
                    cyclic_pattern(self.window()),
                    Some(total),
                ) && chunk < self.chunks().len() && chunk_start(self.chunks(), chunk as int)
                    <= total < chunk_start(self.chunks(), chunk + 1) && inside == total
                    - chunk_start(self.chunks(), chunk as int),
                None => false,
            },
    {
        let found = cyclic_find(subseq, self._n);
        proof {
            let pos = choose|pos: usize|
                first_window(subseq@, cyclic_pattern(self.window()), Some(pos)) && pos
                    < self.total_length();
            lemma_first_window_unique(subseq@, cyclic_pattern(self._n), found, Some(pos));
        }
        let total_idx = match found {
            Some(pos) => pos,
            None => {
                return None;
            },
        };
        let mut inside_chunk_idx = total_idx;
        let mut chunk_idx: usize = 0;
        while chunk_idx < self._chunks.len()
            invariant
                chunk_idx <= self._chunks.len(),
                self.wf(),
                total_idx < self._total_length,
                first_window(subseq@, cyclic_pattern(self._n), Some(total_idx)),
                inside_chunk_idx == total_idx - chunk_start(self._chunks@, chunk_idx as int),
            decreases self._chunks.len() - chunk_idx,
        {
            let chunk = self._chunks[chunk_idx];
            if inside_chunk_idx < chunk {
                return Some((total_idx, chunk_idx, inside_chunk_idx));
            }
            inside_chunk_idx -= chunk;
            chunk_idx += 1;
        }
        None
    }
}

} // verus!
