//! Reflowing text to fit a width.
use vstd::prelude::*;

verus! {

/// Whether a byte has only blank pixels in this game's font (not a general
/// purpose definition of whitespace): the controls, the space and the bytes
/// past `~`, but for the two accented letters the font draws, 0xE9 and 0xED.
pub open spec fn is_ws(byte: u8) -> bool {
    (byte <= 32 || byte > 126) && byte != 0xE9 && byte != 0xED
}

pub fn is_byte_whitespace(byte: u8) -> (res: bool)
    ensures
        res == is_ws(byte),
{
    (byte <= 32 || byte > 126) && byte != 0xE9 && byte != 0xED
}

/// The first position from `i` on that starts a word; the length of `s` if there
/// is none.
pub open spec fn word_start(s: Seq<u8>, i: int) -> int
    decreases s.len() - i,
{
    if i >= s.len() {
        s.len() as int
    } else if !is_ws(s[i]) {
        i
    } else {
        word_start(s, i + 1)
    }
}

/// The first position from `j` on that is whitespace; the length of `s` if there
/// is none.
pub open spec fn word_end(s: Seq<u8>, j: int) -> int
    decreases s.len() - j,
{
    if j >= s.len() {
        s.len() as int
    } else if is_ws(s[j]) {
        j
    } else {
        word_end(s, j + 1)
    }
}

/// The next word of `s` at or after position `i`: its start, its length and the
/// position to continue from. The position to continue from is the end of the
/// word, or the end of `s` when only the last byte lies past the word.
pub open spec fn next_word_spec(s: Seq<u8>, i: int) -> Option<(int, int, int)> {
    let w = word_start(s, i);
    if w >= s.len() {
        None
    } else {
        let e = word_end(s, w + 1);
        Some((w, e - w, if e == s.len() - 1 { s.len() as int } else { e }))
    }
}

pub proof fn lemma_word_start_bounds(s: Seq<u8>, i: int)
    requires
        0 <= i,
    ensures
        i <= s.len() ==> i <= word_start(s, i) <= s.len(),
        i > s.len() ==> word_start(s, i) == s.len(),
        word_start(s, i) < s.len() ==> !is_ws(s[word_start(s, i)]),
        forall|k: int| i <= k < word_start(s, i) ==> is_ws(#[trigger] s[k]),
    decreases s.len() - i,
{
    if i < s.len() && is_ws(s[i]) {
        lemma_word_start_bounds(s, i + 1);
    }
}

pub proof fn lemma_word_end_bounds(s: Seq<u8>, j: int)
    requires
        0 <= j <= s.len(),
    ensures
        j <= word_end(s, j) <= s.len(),
        word_end(s, j) < s.len() ==> is_ws(s[word_end(s, j)]),
        forall|k: int| j <= k < word_end(s, j) ==> !is_ws(#[trigger] s[k]),
    decreases s.len() - j,
{
    if j < s.len() && !is_ws(s[j]) {
        lemma_word_end_bounds(s, j + 1);
    }
}

pub proof fn lemma_next_word_bounds(s: Seq<u8>, i: int)
    requires
        0 <= i,
    ensures
        next_word_spec(s, i) matches Some((w, l, n)) ==> i <= w && 1 <= l && w + l <= n
            <= s.len() && w + l <= s.len() && (n == w + l || n == s.len()) && (n < s.len()
            ==> is_ws(s[n])),
{
    lemma_word_start_bounds(s, i);
    let w = word_start(s, i);
    if w < s.len() {
        lemma_word_end_bounds(s, w + 1);
    }
}

/// Finds the next word of `bytes` at or after `*in_i`, returning its start and
/// length and moving `*in_i` past it.
pub fn bytes_next_word(bytes: &[u8], in_i: &mut usize) -> (res: Option<(usize, usize)>)
    ensures
        match next_word_spec(bytes@, *old(in_i) as int) {
            None => res is None && *final(in_i) == *old(in_i),
            Some((w, l, n)) => res matches Some((rw, rl)) && rw == w && rl == l && *final(in_i)
                == n,
        },
{
    let ghost s = bytes@;
    let ghost start = *in_i as int;
    let end = bytes.len();
    let mut index = *in_i;
    while index < end && is_byte_whitespace(bytes[index])
        invariant
            end == s.len(),
            bytes@ == s,
            start <= index,
            word_start(s, start) == word_start(s, index as int),
        decreases end - index,
    {
        index = index + 1;
    }
    if index >= end {
        return None;
    }
    let out_i = index;
    let mut i = index + 1;
    while i < end && !is_byte_whitespace(bytes[i])
        invariant
            out_i < i <= end,
            end == s.len(),
            bytes@ == s,
            word_end(s, out_i + 1) == word_end(s, i as int),
        decreases end - i,
    {
        i = i + 1;
    }
    proof {
        assert(word_end(s, i as int) == i);
        assert(word_start(s, index as int) == index);
    }
    let len = i - out_i;
    *in_i = i;
    if *in_i == end - 1 {
        *in_i = end;
    }
    Some((out_i, len))
}

/// Where a word of length `l` goes when the current line already holds `x` bytes:
/// the bytes to write before the word (nothing, a space or a newline) and the new
/// line length.
pub open spec fn place(x: int, l: int, width: int) -> (Seq<u8>, int) {
    let x1 = x + l;
    if x1 == width && x1 == l {
        (Seq::<u8>::empty(), x1)
    } else if x1 >= width {
        (seq![10u8], l)
    } else if x1 > l {
        (seq![32u8], x1 + 1)
    } else {
        (Seq::<u8>::empty(), x1)
    }
}

/// The reflowed text made of the words of `s` from position `i` on, when the
/// current line already holds `x` bytes.
pub open spec fn reflow_from(s: Seq<u8>, i: int, width: int, x: int) -> Seq<u8>
    decreases s.len() - i,
    when 0 <= i
{
    match next_word_spec(s, i) {
        None => Seq::<u8>::empty(),
        Some((w, l, n)) => {
            proof {
                lemma_next_word_bounds(s, i);
            }
            let (sep, x2) = place(x, l, width);
            sep + s.subrange(w, w + l) + reflow_from(s, n, width, x2)
        },
    }
}

/// The text `s` reflowed to lines of at most `width` bytes where the words allow:
/// words are separated by single spaces, a newline starts a line where the next
/// word would not fit, and text shorter than `width` is left as it is.
pub open spec fn reflow(s: Seq<u8>, width: int) -> Seq<u8> {
    if width == 0 || s.len() == 0 || (s.len() as int) / width == 0 {
        s
    } else {
        reflow_from(s, 0, width, 0)
    }
}

/// If two byte strings agree from position `i` of `a` and `i + d` of `b` to their
/// ends, then they have the same next words there, shifted by `d`.
proof fn lemma_word_start_shift(a: Seq<u8>, b: Seq<u8>, d: int, i: int)
    requires
        0 <= i,
        0 <= d,
        b.len() == a.len() + d,
        forall|j: int| i <= j < a.len() ==> #[trigger] a[j] == b[j + d],
    ensures
        word_start(b, i + d) == word_start(a, i) + d || (i >= a.len() && word_start(b, i + d)
            == b.len() && word_start(a, i) == a.len()),
    decreases a.len() - i,
{
    if i < a.len() && is_ws(a[i]) {
        assert(b[i + d] == a[i]);
        lemma_word_start_shift(a, b, d, i + 1);
    } else if i < a.len() {
        assert(b[i + d] == a[i]);
    }
}

proof fn lemma_word_end_shift(a: Seq<u8>, b: Seq<u8>, d: int, j: int)
    requires
        0 <= j,
        0 <= d,
        b.len() == a.len() + d,
        forall|k: int| j <= k < a.len() ==> #[trigger] a[k] == b[k + d],
    ensures
        j <= a.len() ==> word_end(b, j + d) == word_end(a, j) + d,
    decreases a.len() - j,
{
    if j < a.len() && !is_ws(a[j]) {
        assert(b[j + d] == a[j]);
        lemma_word_end_shift(a, b, d, j + 1);
    } else if j < a.len() {
        assert(b[j + d] == a[j]);
    }
}

proof fn lemma_next_word_shift(a: Seq<u8>, b: Seq<u8>, d: int, i: int)
    requires
        0 <= i <= a.len(),
        0 <= d,
        b.len() == a.len() + d,
        forall|j: int| i <= j < a.len() ==> #[trigger] a[j] == b[j + d],
    ensures
        match next_word_spec(a, i) {
            None => next_word_spec(b, i + d) is None,
            Some((w, l, n)) => next_word_spec(b, i + d) == Some((w + d, l, n + d)),
        },
{
    lemma_word_start_shift(a, b, d, i);
    lemma_word_start_bounds(a, i);
    let w = word_start(a, i);
    if w < a.len() {
        assert forall|k: int| w + 1 <= k < a.len() implies #[trigger] a[k] == b[k + d] by {
            assert(i <= k);
        }
        lemma_word_end_shift(a, b, d, w + 1);
    }
}

/// Appends `extra` bytes to `bytes` and moves its old contents to the end, so
/// that they start at position `extra`.
fn make_room(bytes: &mut Vec<u8>, extra: usize)
    requires
        1 <= extra <= old(bytes)@.len(),
        old(bytes)@.len() + extra <= usize::MAX,
    ensures
        final(bytes)@.len() == old(bytes)@.len() + extra,
        forall|j: int|
            extra <= j < final(bytes)@.len() ==> #[trigger] final(bytes)@[j] == old(bytes)@[j
                - extra],
{
    let ghost s = bytes@;
    let used_len = bytes.len();
    let mut k: usize = 0;
    while k < extra
        invariant
            k <= extra,
            used_len == s.len(),
            used_len + extra <= usize::MAX,
            bytes@.len() == used_len + k,
            bytes@.subrange(0, used_len as int) == s,
        decreases extra - k,
    {
        bytes.push(0);
        k = k + 1;
        assert(bytes@.subrange(0, used_len as int) =~= s);
    }
    let total = bytes.len();
    let mut i: usize = used_len;
    while i > 0
        invariant
            i <= used_len,
            used_len == s.len(),
            1 <= extra,
            total == used_len + extra,
            bytes@.len() == total,
            forall|j: int| 0 <= j < i ==> #[trigger] bytes@[j] == s[j],
            forall|j: int| i <= j < used_len ==> #[trigger] bytes@[j + extra] == s[j],
        decreases i,
    {
        let b = bytes[i - 1];
        bytes.set(i - 1 + extra, b);
        i = i - 1;
    }
    assert forall|j: int| extra <= j < total implies #[trigger] bytes@[j] == s[j - extra] by {
        assert(bytes@[(j - extra) + extra] == s[j - extra]);
    }
}

/// Copies the `len` bytes at `from` to `to`, which lies at or before `from`.
fn copy_word(bytes: &mut Vec<u8>, to: usize, from: usize, len: usize)
    requires
        to <= from,
        from + len <= old(bytes)@.len(),
    ensures
        final(bytes)@.len() == old(bytes)@.len(),
        final(bytes)@.subrange(0, to as int) == old(bytes)@.subrange(0, to as int),
        final(bytes)@.subrange(to as int, to + len) == old(bytes)@.subrange(
            from as int,
            from + len,
        ),
        forall|j: int|
            from + len <= j < final(bytes)@.len() ==> #[trigger] final(bytes)@[j] == old(
                bytes,
            )@[j],
{
    let ghost before = bytes@;
    let n = bytes.len();
    let mut i: usize = 0;
    while i < len
        invariant
            i <= len,
            to <= from,
            from + len <= n,
            n == before.len(),
            bytes@.len() == before.len(),
            forall|j: int| 0 <= j < to ==> #[trigger] bytes@[j] == before[j],
            forall|j: int| 0 <= j < i ==> #[trigger] bytes@[to + j] == before[from + j],
            forall|j: int| from + i <= j < before.len() ==> #[trigger] bytes@[j] == before[j],
        decreases len - i,
    {
        let b = bytes[from + i];
        bytes.set(to + i, b);
        i = i + 1;
    }
    assert(bytes@.subrange(0, to as int) =~= before.subrange(0, to as int));
    assert forall|j: int| 0 <= j < len implies #[trigger] bytes@.subrange(to as int, to + len)[j]
        == before.subrange(from as int, from + len)[j] by {
        assert(bytes@[to + j] == before[from + j]);
    }
    assert(bytes@.subrange(to as int, to + len) =~= before.subrange(from as int, from + len));
}

/// Writes the separator that `place` asks for at `index`, then the `len`
/// bytes found at `from`, and returns the new write position and line length.
fn place_word(bytes: &mut Vec<u8>, index: usize, from: usize, len: usize, x: usize, width: usize) -> (res: (usize, usize))
    requires
        index < from,
        from + len <= old(bytes)@.len(),
        x + len < usize::MAX,
    ensures
        final(bytes)@.len() == old(bytes)@.len(),
        res.0 <= from + len,
        final(bytes)@.subrange(0, res.0 as int) == old(bytes)@.subrange(0, index as int) + place(
            x as int,
            len as int,
            width as int,
        ).0 + old(bytes)@.subrange(from as int, from + len),
        res.1 == place(x as int, len as int, width as int).1,
        forall|j: int|
            from + len <= j < final(bytes)@.len() ==> #[trigger] final(bytes)@[j] == old(
                bytes,
            )@[j],
{
    let ghost before = bytes@;
    let ghost placed = place(x as int, len as int, width as int);
    let ghost start = index;
    let mut index = index;
    let mut x = x + len;
    if x == width && x == len {
    } else if x >= width {
        bytes.set(index, 10u8);
        index = index + 1;
        x = len;
    } else if x > len {
        bytes.set(index, 32u8);
        index = index + 1;
        x = x + 1;
    }
    let ghost mid = bytes@;
    assert(mid.subrange(0, index as int) =~= before.subrange(0, start as int) + placed.0);
    assert(mid.subrange(from as int, from + len) =~= before.subrange(from as int, from + len));
    let n: usize = bytes.len();
    copy_word(bytes, index, from, len);
    assert(bytes@.subrange(0, index + len) =~= mid.subrange(0, index as int) + mid.subrange(
        from as int,
        from + len,
    ));
    (index + len, x)
}

/// What reflowing from position `i` gives, one word at a time.
proof fn lemma_reflow_from_step(s: Seq<u8>, i: int, width: int, x: int)
    requires
        0 <= i,
    ensures
        next_word_spec(s, i) is None ==> reflow_from(s, i, width, x) == Seq::<u8>::empty(),
        next_word_spec(s, i) matches Some((w, l, n)) ==> reflow_from(s, i, width, x) == place(
            x,
            l,
            width,
        ).0 + s.subrange(w, w + l) + reflow_from(s, n, width, place(x, l, width).1),
{
    lemma_next_word_bounds(s, i);
}

/// Reflows the text in `bytes` to lines of `width_in_chars` bytes, where the
/// words allow, without a second buffer.
#[verifier::rlimit(100)]
#[verifier::spinoff_prover]
pub fn bytes_reflow_in_place(bytes: &mut Vec<u8>, width_in_chars: usize)
    requires
        old(bytes)@.len() < usize::MAX / 4,
    ensures
        final(bytes)@ == reflow(old(bytes)@, width_in_chars as int),
{
    if width_in_chars == 0 || bytes.len() == 0 {
        return;
    }
    let ghost s = bytes@;
    let used_len = bytes.len();
    let extra = bytes.len() / width_in_chars;

    if extra == 0 {
        return;
    }
    assert(width_in_chars <= used_len) by {
        if width_in_chars > used_len {
            assert(used_len / width_in_chars == 0) by (nonlinear_arith)
                requires
                    width_in_chars > used_len,
                    used_len >= 0,
            ;
        }
    }
    assert(extra <= used_len) by (nonlinear_arith)
        requires
            extra == used_len / width_in_chars,
            width_in_chars >= 1,
    ;
    make_room(bytes, extra);
    let total = bytes.len();

    // Scan the moved text and copy it back to the front, separating the words.
    let mut index: usize = 0;
    let mut next_i: usize = extra;
    let mut x: usize = 0;
    let ghost mut produced: Seq<u8> = Seq::empty();
    proof {
        lemma_reflow_from_zero(s, width_in_chars as int);
    }
    loop
        invariant
            total == used_len + extra,
            s.len() == used_len,
            1 <= width_in_chars <= used_len,
            1 <= extra <= used_len,
            used_len < usize::MAX / 4,
            bytes@.len() == total,
            extra <= next_i <= total,
            index <= next_i,
            index < next_i || next_i == total || is_ws(bytes@[next_i as int]),
            x <= used_len,
            forall|j: int| next_i <= j < total ==> #[trigger] bytes@[j] == s[j - extra],
            bytes@.subrange(0, index as int) == produced,
            produced + reflow_from(s, next_i - extra, width_in_chars as int, x as int)
                == reflow_from(s, 0, width_in_chars as int, 0),
        ensures
            bytes@.len() == total,
            index <= total,
            bytes@.subrange(0, index as int) == produced,
            produced == reflow_from(s, 0, width_in_chars as int, 0),
        decreases total - next_i,
    {
        let ghost before = bytes@;
        let ghost old_next = next_i;
        let ghost old_x = x;
        let ghost c = old_next - extra;
        proof {
            assert forall|j: int| c <= j < s.len() implies #[trigger] s[j] == before[j
                + extra] by {
                assert(before[(j + extra) as int] == s[(j + extra) - extra]);
            }
            lemma_next_word_shift(s, before, extra as int, c);
            lemma_next_word_bounds(s, c);
            lemma_next_word_bounds(before, old_next as int);
            lemma_word_start_bounds(before, old_next as int);
            lemma_reflow_from_step(s, c, width_in_chars as int, old_x as int);
        }
        let found = bytes_next_word(bytes.as_slice(), &mut next_i);
        match found {
            None => {
                proof {
                    assert(produced + Seq::<u8>::empty() =~= produced);
                }
                break ;
            },
            Some((w_i, len)) => {
                let ghost word = before.subrange(w_i as int, w_i + len);
                let ghost placed = place(old_x as int, len as int, width_in_chars as int);
                proof {
                    assert(word =~= s.subrange(w_i - extra, w_i - extra + len)) by {
                        assert forall|j: int| 0 <= j < len implies #[trigger] word[j]
                            == s.subrange(w_i - extra, w_i - extra + len)[j] by {
                            assert(before[w_i + j] == s[w_i + j - extra]);
                        }
                    }
                }
                let (new_index, new_x) = place_word(bytes, index, w_i, len, x, width_in_chars);
                index = new_index;
                x = new_x;
                proof {
                    let ghost rest = reflow_from(s, next_i - extra, width_in_chars as int, x as int);
                    assert(produced + (placed.0 + word + rest) =~= (produced + placed.0 + word)
                        + rest);
                    produced = produced + placed.0 + word;
                }
            },
        }
    }
    bytes.truncate(index);
}

proof fn lemma_reflow_from_zero(s: Seq<u8>, width: int)
    ensures
        Seq::<u8>::empty() + reflow_from(s, 0, width, 0) == reflow_from(s, 0, width, 0),
{
    assert(Seq::<u8>::empty() + reflow_from(s, 0, width, 0) =~= reflow_from(s, 0, width, 0));
}

/// Appends `bytes` to `out`.
pub fn append_bytes(out: &mut Vec<u8>, bytes: &[u8])
    ensures
        final(out)@ == old(out)@ + bytes@,
{
    let mut i: usize = 0;
    while i < bytes.len()
        invariant
            i <= bytes@.len(),
            out@ == old(out)@ + bytes@.take(i as int),
        decreases bytes@.len() - i,
    {
        out.push(bytes[i]);
        i = i + 1;
        assert(out@ =~= old(out)@ + bytes@.take(i as int));
    }
    assert(bytes@.take(i as int) =~= bytes@);
}

} // verus!
