//! Character-level views of strings: UTF-8 byte offsets, byte slicing as `str`
//! indexing does it, Unicode whitespace splitting and prefix trimming.
use vstd::prelude::*;
use vstd::utf8::*;

verus! {

/// The number of bytes of `c` in UTF-8.
pub open spec fn char_width(c: char) -> nat {
    if (c as u32) < 0x80 {
        1
    } else if (c as u32) < 0x800 {
        2
    } else if (c as u32) < 0x10000 {
        3
    } else {
        4
    }
}

/// The number of bytes of `s` in UTF-8.
pub open spec fn byte_len(s: Seq<char>) -> nat
    decreases s.len(),
{
    if s.len() == 0 {
        0
    } else {
        byte_len(s.drop_last()) + char_width(s.last())
    }
}

/// Byte offset `k` falls between two characters of `s` (or at either end).
pub open spec fn is_boundary(s: Seq<char>, k: int) -> bool {
    exists|i: int| 0 <= i <= s.len() && byte_len(s.take(i)) == k
}

/// The index of the character that starts at byte offset `k`.
pub open spec fn char_index_at(s: Seq<char>, k: int) -> int {
    choose|i: int| 0 <= i <= s.len() && byte_len(s.take(i)) == k
}

/// `&s[lo..hi]` for byte offsets `lo <= hi` that are both boundaries.
pub open spec fn byte_slice(s: Seq<char>, lo: int, hi: int) -> Seq<char> {
    s.subrange(char_index_at(s, lo), char_index_at(s, hi))
}

/// `char::is_whitespace`: the characters with the Unicode `White_Space` property.
pub open spec fn is_unicode_whitespace(c: char) -> bool {
    let v = c as u32;
    ||| 0x09 <= v <= 0x0D
    ||| v == 0x20
    ||| v == 0x85
    ||| v == 0xA0
    ||| v == 0x1680
    ||| 0x2000 <= v <= 0x200A
    ||| v == 0x2028
    ||| v == 0x2029
    ||| v == 0x202F
    ||| v == 0x205F
    ||| v == 0x3000
}

/// Exec version of `is_unicode_whitespace`.
pub fn is_whitespace_char(c: char) -> (r: bool)
    ensures
        r == is_unicode_whitespace(c),
{
    let v = c as u32;
    (0x09 <= v && v <= 0x0D) || v == 0x20 || v == 0x85 || v == 0xA0 || v == 0x1680 || (0x2000
        <= v && v <= 0x200A) || v == 0x2028 || v == 0x2029 || v == 0x202F || v == 0x205F || v
        == 0x3000
}

/// Exec version of `char_width`.
pub fn char_width_of(c: char) -> (w: usize)
    ensures
        w == char_width(c),
{
    let v = c as u32;
    if v < 0x80 {
        1
    } else if v < 0x800 {
        2
    } else if v < 0x10000 {
        3
    } else {
        4
    }
}

/// The byte length of a sequence is that of its first character plus the rest.
pub proof fn lemma_byte_len_first(s: Seq<char>)
    requires
        s.len() > 0,
    ensures
        byte_len(s) == char_width(s[0]) + byte_len(s.drop_first()),
    decreases s.len(),
{
    if s.len() == 1 {
        assert(s.drop_last().len() == 0);
        assert(s.drop_first().len() == 0);
        assert(byte_len(s.drop_last()) == 0);
        assert(byte_len(s.drop_first()) == 0);
        assert(s.last() == s[0]);
    } else {
        lemma_byte_len_first(s.drop_last());
        assert(s.drop_last().drop_first() =~= s.drop_first().drop_last());
        assert(s.drop_first().last() == s.last());
        assert(s.drop_last()[0] == s[0]);
        assert(byte_len(s.drop_first()) == byte_len(s.drop_first().drop_last()) + char_width(
            s.drop_first().last(),
        ));
    }
}

/// The UTF-8 encoding of `s` has `byte_len(s)` bytes.
pub proof fn lemma_encode_len(s: Seq<char>)
    ensures
        encode_utf8(s).len() == byte_len(s),
    decreases s.len(),
{
    if s.len() > 0 {
        lemma_encode_len(s.drop_first());
        lemma_byte_len_first(s);
        let c = s[0];
        char_is_scalar(c);
        assert(encode_scalar(c as u32).len() == char_width(c));
    }
}

/// Byte length of a prefix grows by the width of the next character.
pub proof fn lemma_byte_len_take_step(s: Seq<char>, i: int)
    requires
        0 <= i < s.len(),
    ensures
        byte_len(s.take(i + 1)) == byte_len(s.take(i)) + char_width(s[i]),
{
    assert(s.take(i + 1).drop_last() =~= s.take(i));
}

/// Byte lengths of prefixes are monotonic, strictly.
pub proof fn lemma_byte_len_take_mono(s: Seq<char>, i: int, j: int)
    requires
        0 <= i < j <= s.len(),
    ensures
        byte_len(s.take(i)) < byte_len(s.take(j)),
    decreases j - i,
{
    lemma_byte_len_take_step(s, j - 1);
    if i < j - 1 {
        lemma_byte_len_take_mono(s, i, j - 1);
    }
}

/// In ASCII text every character is one byte: a prefix of `i` characters
/// has `i` bytes.
pub proof fn lemma_ascii_prefix_bytes(s: Seq<char>, i: int)
    requires
        crate::is_ascii_text(s),
        0 <= i <= s.len(),
    ensures
        byte_len(s.take(i)) == i,
    decreases i,
{
    if i > 0 {
        lemma_ascii_prefix_bytes(s, i - 1);
        lemma_byte_len_take_step(s, i - 1);
        assert((s[i - 1] as u32) < 128);
    } else {
        assert(s.take(0).len() == 0);
    }
}

/// In ASCII text every byte offset up to the length is a boundary, at the
/// character of the same index, so slicing by bytes is slicing by characters.
pub proof fn lemma_ascii_byte_slice(s: Seq<char>, lo: int, hi: int)
    requires
        crate::is_ascii_text(s),
        0 <= lo <= hi <= s.len(),
    ensures
        is_boundary(s, lo),
        is_boundary(s, hi),
        char_index_at(s, lo) == lo,
        char_index_at(s, hi) == hi,
        byte_slice(s, lo, hi) == s.subrange(lo, hi),
{
    lemma_ascii_prefix_bytes(s, lo);
    lemma_ascii_prefix_bytes(s, hi);
    assert(is_boundary(s, lo));
    assert(is_boundary(s, hi));
    lemma_ascii_prefix_bytes(s, char_index_at(s, lo));
    lemma_ascii_prefix_bytes(s, char_index_at(s, hi));
}

/// `s.len()`: the number of bytes of `s` in UTF-8.
pub fn str_byte_len(s: &str) -> (n: usize)
    ensures
        n == byte_len(s@),
{
    proof {
        lemma_encode_len(s@);
    }
    let bytes = s.as_bytes();
    bytes.len()
}

/// The characters of `s`.
pub fn chars_of(s: &str) -> (v: Vec<char>)
    ensures
        v@ == s@,
{
    let mut v: Vec<char> = Vec::new();
    for c in it: s.chars()
        invariant
            v@ == it.seq().take(it.index() as int),
    {
        v.push(c);
    }
    v
}

/// Finds the character index at which byte offset `k` falls, if it is a
/// boundary of `s`.
pub fn boundary_at(s: &Vec<char>, k: usize) -> (r: Option<usize>)
    requires
        k <= 1024,
    ensures
        r is Some <==> is_boundary(s@, k as int),
        r matches Some(i) ==> i <= s.len() && byte_len(s@.take(i as int)) == k && char_index_at(
            s@,
            k as int,
        ) == i,
{
    let mut i: usize = 0;
    let mut total: usize = 0;
    assert(s@.take(0).len() == 0);
    while i < s.len() && total < k
        invariant
            0 <= i <= s.len(),
            k <= 1024,
            total == byte_len(s@.take(i as int)),
            total <= k + 4,
            forall|j: int| 0 <= j < i ==> byte_len(#[trigger] s@.take(j)) < k,
        decreases s.len() - i,
    {
        proof {
            lemma_byte_len_take_step(s@, i as int);
        }
        let w = char_width_of(s[i]);
        total = total + w;
        i = i + 1;
    }
    if total == k {
        proof {
            let c = char_index_at(s@, k as int);
            assert(0 <= c <= s.len() && byte_len(s@.take(c)) == k);
            if c < i {
                lemma_byte_len_take_mono(s@, c, i as int);
            } else if c > i {
                lemma_byte_len_take_mono(s@, i as int, c);
            }
        }
        Some(i)
    } else {
        proof {
            assert forall|j: int| 0 <= j <= s.len() implies byte_len(#[trigger] s@.take(j)) != k by {
                if j > i {
                    lemma_byte_len_take_mono(s@, i as int, j);
                }
            }
        }
        None
    }
}

/// `s[lo..hi]` as a new vector.
pub fn copy_range(s: &Vec<char>, lo: usize, hi: usize) -> (r: Vec<char>)
    requires
        lo <= hi <= s.len(),
    ensures
        r@ == s@.subrange(lo as int, hi as int),
{
    let mut r: Vec<char> = Vec::new();
    let mut i = lo;
    while i < hi
        invariant
            lo <= i <= hi <= s.len(),
            r@ == s@.subrange(lo as int, i as int),
        decreases hi - i,
    {
        r.push(s[i]);
        i = i + 1;
    }
    r
}

/// The number of leading `'0'` characters of `s`.
pub open spec fn leading_zeros(s: Seq<char>) -> nat
    decreases s.len(),
{
    if s.len() > 0 && s[0] == '0' {
        1 + leading_zeros(s.drop_first())
    } else {
        0
    }
}

/// `s.trim_start_matches('0')`.
pub open spec fn trim_leading_zeros(s: Seq<char>) -> Seq<char> {
    s.skip(leading_zeros(s) as int)
}

/// Exec version of `trim_leading_zeros`.
pub fn trim_zeros(s: &Vec<char>) -> (r: Vec<char>)
    ensures
        r@ == trim_leading_zeros(s@),
{
    let mut i: usize = 0;
    assert(s@.skip(0) =~= s@);
    while i < s.len() && s[i] == '0'
        invariant
            0 <= i <= s.len(),
            leading_zeros(s@) == i + leading_zeros(s@.skip(i as int)),
        decreases s.len() - i,
    {
        proof {
            assert(s@.skip(i as int).drop_first() =~= s@.skip(i + 1));
        }
        i = i + 1;
    }
    proof {
        assert(leading_zeros(s@.skip(i as int)) == 0);
    }
    copy_range(s, i, s.len())
}

/// `str::split_whitespace`, stated from the left: `cur` is the token being
/// read, `acc` the tokens already read.
pub open spec fn split_ws_from(s: Seq<char>, cur: Seq<char>, acc: Seq<Seq<char>>) -> Seq<
    Seq<char>,
>
    decreases s.len(),
{
    if s.len() == 0 {
        if cur.len() > 0 {
            acc.push(cur)
        } else {
            acc
        }
    } else if is_unicode_whitespace(s[0]) {
        split_ws_from(
            s.drop_first(),
            Seq::empty(),
            if cur.len() > 0 {
                acc.push(cur)
            } else {
                acc
            },
        )
    } else {
        split_ws_from(s.drop_first(), cur.push(s[0]), acc)
    }
}

/// The maximal runs of non-whitespace characters of `s`, in order.
pub open spec fn split_ws(s: Seq<char>) -> Seq<Seq<char>> {
    split_ws_from(s, Seq::empty(), Seq::empty())
}

/// The characters of each vector.
pub open spec fn tokens_view(v: Seq<Vec<char>>) -> Seq<Seq<char>> {
    v.map_values(|t: Vec<char>| t@)
}

/// Exec version of `split_ws`.
pub fn split_whitespace_chars(s: &Vec<char>) -> (r: Vec<Vec<char>>)
    ensures
        tokens_view(r@) == split_ws(s@),
{
    let mut acc: Vec<Vec<char>> = Vec::new();
    let mut cur: Vec<char> = Vec::new();
    let mut i: usize = 0;
    assert(s@.skip(0) =~= s@);
    assert(tokens_view(acc@) =~= Seq::<Seq<char>>::empty());
    while i < s.len()
        invariant
            0 <= i <= s.len(),
            split_ws(s@) == split_ws_from(s@.skip(i as int), cur@, tokens_view(acc@)),
        decreases s.len() - i,
    {
        proof {
            assert(s@.skip(i as int).drop_first() =~= s@.skip(i + 1));
            assert(s@.skip(i as int)[0] == s@[i as int]);
        }
        let c = s[i];
        if is_whitespace_char(c) {
            if cur.len() > 0 {
                let ghost old_acc = tokens_view(acc@);
                let ghost cv = cur@;
                acc.push(cur);
                assert(tokens_view(acc@) =~= old_acc.push(cv));
                cur = Vec::new();
            }
            assert(cur@ =~= Seq::<char>::empty());
        } else {
            cur.push(c);
        }
        i = i + 1;
    }
    proof {
        assert(s@.skip(i as int).len() == 0);
    }
    if cur.len() > 0 {
        let ghost old_acc = tokens_view(acc@);
        let ghost cv = cur@;
        acc.push(cur);
        assert(tokens_view(acc@) =~= old_acc.push(cv));
    }
    acc
}

/// `a == b` on character vectors.
pub fn chars_eq(a: &Vec<char>, b: &Vec<char>) -> (r: bool)
    ensures
        r == (a@ == b@),
{
    if a.len() != b.len() {
        return false;
    }
    let mut i: usize = 0;
    while i < a.len()
        invariant
            a.len() == b.len(),
            0 <= i <= a.len(),
            forall|k: int| 0 <= k < i ==> a@[k] == b@[k],
        decreases a.len() - i,
    {
        if a[i] != b[i] {
            return false;
        }
        i = i + 1;
    }
    assert(a@ =~= b@);
    true
}

/// `a == b` on string slices.
pub fn str_eq(a: &str, b: &str) -> (r: bool)
    ensures
        r == (a@ == b@),
{
    let x = chars_of(a);
    let y = chars_of(b);
    chars_eq(&x, &y)
}

/// `String::push`: appends `c` to the end of `s`, as std documents it.
#[verifier::external_body]
pub fn push_char(s: &mut String, c: char)
    ensures
        final(s)@ == old(s)@.push(c),
{
    s.push(c);
}

} // verus!
