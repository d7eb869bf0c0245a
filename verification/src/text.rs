//! Character-level helpers shared by the parsers and formatters of the crate.
use vstd::prelude::*;

verus! {

broadcast use vstd::string::group_string_axioms;

/// The characters of `s`, in order.
pub fn chars_of(s: &str) -> (v: Vec<char>)
    ensures
        v@ == s@,
{
    let mut v: Vec<char> = Vec::new();
    for c in it: s.chars()
        invariant
            v@ == it.seq().take(it.index() as int),
            it.seq() == s@,
    {
        v.push(c);
    }
    v
}

/// Appends one character (`String::push`).
#[verifier::external_body]
pub fn push_char(s: &mut String, c: char)
    ensures
        final(s)@ == old(s)@.push(c),
{
    s.push(c);
}

/// Appends a string slice.
pub fn push_str(s: &mut String, t: &str)
    ensures
        final(s)@ == old(s)@ + t@,
{
    s.append(t);
}

/// A `String` holding the characters `cs[from..to]`.
pub fn string_from_chars(cs: &[char], from: usize, to: usize) -> (s: String)
    requires
        from <= to <= cs@.len(),
    ensures
        s@ == cs@.subrange(from as int, to as int),
{
    let mut s = String::new();
    let mut i = from;
    while i < to
        invariant
            from <= i <= to <= cs@.len(),
            s@ == cs@.subrange(from as int, i as int),
        decreases to - i,
    {
        push_char(&mut s, cs[i]);
        proof {
            assert(cs@.subrange(from as int, i + 1) =~= cs@.subrange(from as int, i as int).push(cs@[i as int]));
        }
        i = i + 1;
    }
    s
}

/// What `String::from_utf8_lossy` makes of `bytes`: the decoded text, with every
/// invalid sequence replaced by U+FFFD.
pub uninterp spec fn utf8_lossy(bytes: Seq<u8>) -> Seq<char>;

/// Calls `String::from_utf8_lossy` and takes ownership of the result: the text
/// the bytes encode when they are valid UTF-8; otherwise the contract names the
/// result and says no more of how invalid sequences are replaced.
#[verifier::external_body]
pub fn decode_utf8_lossy(bytes: &[u8]) -> (s: String)
    ensures
        s@ == utf8_lossy(bytes@),
        vstd::utf8::valid_utf8(bytes@) ==> s@ == vstd::utf8::decode_utf8(bytes@),
{
    String::from_utf8_lossy(bytes).into_owned()
}

/// Number of bytes of the UTF-8 encoding of `c`.
pub open spec fn utf8_width(c: char) -> nat {
    if (c as u32) < 0x80 {
        1
    } else if (c as u32) < 0x800 {
        2
    } else if (c as u32) < 0x10000 {
        3
    } else {
        4
    }
}

/// Number of bytes of the UTF-8 encoding of `s` (what `str::len` reports).
pub open spec fn utf8_len(s: Seq<char>) -> nat
    decreases s.len(),
{
    if s.len() == 0 {
        0
    } else {
        utf8_len(s.drop_last()) + utf8_width(s.last())
    }
}

pub proof fn lemma_utf8_len_push(s: Seq<char>, c: char)
    ensures
        utf8_len(s.push(c)) == utf8_len(s) + utf8_width(c),
{
    assert(s.push(c).drop_last() =~= s);
}

pub proof fn lemma_utf8_len_concat(a: Seq<char>, b: Seq<char>)
    ensures
        utf8_len(a + b) == utf8_len(a) + utf8_len(b),
    decreases b.len(),
{
    if b.len() == 0 {
        assert(a + b =~= a);
    } else {
        assert((a + b).drop_last() =~= a + b.drop_last());
        lemma_utf8_len_concat(a, b.drop_last());
    }
}

pub proof fn lemma_utf8_len_bounds(s: Seq<char>)
    ensures
        s.len() <= utf8_len(s) <= 4 * s.len(),
    decreases s.len(),
{
    if s.len() > 0 {
        lemma_utf8_len_bounds(s.drop_last());
    }
}

/// What `str::len` reports for a string holding `s`: its UTF-8 byte length, as a
/// `usize`.
pub open spec fn str_len(s: Seq<char>) -> usize {
    utf8_len(s) as usize
}

/// The UTF-8 encoding of `s` has `utf8_len(s)` bytes.
pub proof fn lemma_encode_utf8_len(s: Seq<char>)
    ensures
        vstd::utf8::encode_utf8(s).len() == utf8_len(s),
    decreases s.len(),
{
    if s.len() > 0 {
        lemma_encode_utf8_len(s.drop_first());
        lemma_utf8_len_concat(seq![s[0]], s.drop_first());
        assert(seq![s[0]] + s.drop_first() =~= s);
        assert(seq![s[0]].drop_last() =~= Seq::<char>::empty());
        let v = s[0] as u32;
        vstd::utf8::char_is_scalar(s[0]);
        assert(vstd::utf8::encode_scalar(v).len() == utf8_width(s[0]));
        assert(vstd::utf8::encode_utf8(s) == vstd::utf8::encode_scalar(v) + vstd::utf8::encode_utf8(s.drop_first()));
        lemma_utf8_len_push(Seq::<char>::empty(), s[0]);
        assert(Seq::<char>::empty().push(s[0]) =~= seq![s[0]]);
        assert(utf8_len(Seq::<char>::empty()) == 0);
        assert(utf8_len(s) == utf8_len(seq![s[0]]) + utf8_len(s.drop_first()));
    }
}

/// Byte length of `s` (`str::len`).
pub fn byte_len(s: &str) -> (n: usize)
    ensures
        n == str_len(s@),
{
    proof {
        lemma_encode_utf8_len(s@);
    }
    s.len()
}

/// UTF-8 width of one character.
pub fn char_utf8_width(c: char) -> (w: usize)
    ensures
        w == utf8_width(c),
{
    let v = c as u32;
    if v < 0x80 {
        1
    } else if v < 0x800 {
        2
    } else if v < 0x10000 {
        3
    } else {
        4
    }
}

/// Byte length of the UTF-8 encoding of `cs[from..to]`.
pub fn utf8_len_of(cs: &[char], from: usize, to: usize) -> (n: u128)
    requires
        from <= to <= cs@.len(),
    ensures
        n == utf8_len(cs@.subrange(from as int, to as int)),
{
    let mut n: u128 = 0;
    let mut i = from;
    while i < to
        invariant
            from <= i <= to <= cs@.len(),
            n == utf8_len(cs@.subrange(from as int, i as int)),
            n <= 4 * (i - from),
        decreases to - i,
    {
        proof {
            assert(cs@.subrange(from as int, i + 1) =~= cs@.subrange(from as int, i as int).push(cs@[i as int]));
            lemma_utf8_len_push(cs@.subrange(from as int, i as int), cs@[i as int]);
        }
        n = n + char_utf8_width(cs[i]) as u128;
        i = i + 1;
    }
    n
}

/// Whether two string slices hold the same characters.
pub fn str_eq(a: &str, b: &str) -> (r: bool)
    ensures
        r == (a@ == b@),
{
    let x = chars_of(a);
    let y = chars_of(b);
    if x.len() != y.len() {
        return false;
    }
    let mut i: usize = 0;
    while i < x.len()
        invariant
            x@ == a@,
            y@ == b@,
            x@.len() == y@.len(),
            i <= x@.len(),
            forall|j: int| 0 <= j < i ==> x@[j] == y@[j],
        decreases x.len() - i,
    {
        if x[i] != y[i] {
            proof {
                assert(x@[i as int] != y@[i as int]);
                assert(a@[i as int] != b@[i as int]);
            }
            return false;
        }
        i = i + 1;
    }
    proof {
        assert(x@ =~= y@);
    }
    true
}

/// Whether `pat` occurs in `s` at position `i`.
pub open spec fn occurs_at(s: Seq<char>, pat: Seq<char>, i: int) -> bool {
    0 <= i && i + pat.len() <= s.len() && s.subrange(i, i + pat.len()) == pat
}

/// Whether `pat` occurs in `s` at position `i` (executable).
pub fn matches_at(s: &[char], pat: &[char], i: usize) -> (b: bool)
    ensures
        b == occurs_at(s@, pat@, i as int),
{
    if i > s.len() || pat.len() > s.len() - i {
        return false;
    }
    let mut k: usize = 0;
    while k < pat.len()
        invariant
            i + pat.len() <= s.len(),
            i + pat@.len() <= s@.len(),
            k <= pat@.len(),
            forall|j: int| 0 <= j < k ==> s@[i + j] == pat@[j],
        decreases pat.len() - k,
    {
        if s[i + k] != pat[k] {
            proof {
                assert(s@.subrange(i as int, i + pat@.len())[k as int] != pat@[k as int]);
            }
            return false;
        }
        k = k + 1;
    }
    proof {
        assert(s@.subrange(i as int, i + pat@.len()) =~= pat@);
    }
    true
}

/// `s` with every non-overlapping occurrence of the non-empty `from`, scanned left to
/// right, replaced by `to` (what `str::replace` computes).
pub open spec fn replace_all(s: Seq<char>, from: Seq<char>, to: Seq<char>) -> Seq<char>
    decreases s.len(),
{
    if s.len() == 0 || from.len() == 0 {
        s
    } else if occurs_at(s, from, 0) {
        to + replace_all(s.skip(from.len() as int), from, to)
    } else {
        seq![s[0]] + replace_all(s.skip(1), from, to)
    }
}

/// `str::replace` with a non-empty pattern, written out.
pub fn replace_str(s: &str, from: &str, to: &str) -> (r: String)
    requires
        from@.len() > 0,
    ensures
        r@ == replace_all(s@, from@, to@),
{
    let cs = chars_of(s);
    let pat = chars_of(from);
    let mut out = String::new();
    let mut i: usize = 0;
    proof {
        assert(cs@.skip(0) =~= cs@);
        assert(out@ + cs@ =~= cs@);
    }
    while i < cs.len()
        invariant
            pat@ == from@,
            cs@ == s@,
            pat@.len() > 0,
            i <= cs@.len(),
            out@ + replace_all(cs@.skip(i as int), pat@, to@) == replace_all(cs@, pat@, to@),
        decreases cs.len() - i,
    {
        proof {
            assert(cs@.skip(i as int).len() > 0);
        }
        if matches_at(&cs, &pat, i) {
            proof {
                assert(cs@.skip(i as int).subrange(0, pat@.len() as int) =~= cs@.subrange(i as int, i + pat@.len()));
                assert(cs@.skip(i as int).skip(pat@.len() as int) =~= cs@.skip(i + pat@.len()));
                assert(out@ + to@ + replace_all(cs@.skip(i + pat@.len()), pat@, to@) =~= out@ + (to@ + replace_all(cs@.skip(i as int).skip(pat@.len() as int), pat@, to@)));
            }
            push_str(&mut out, to);
            i = i + pat.len();
        } else {
            proof {
                if occurs_at(cs@.skip(i as int), pat@, 0) {
                    assert(cs@.skip(i as int).subrange(0, pat@.len() as int) =~= cs@.subrange(i as int, i + pat@.len()));
                }
                assert(cs@.skip(i as int).skip(1) =~= cs@.skip(i + 1));
                assert(out@.push(cs@[i as int]) + replace_all(cs@.skip(i + 1), pat@, to@) =~= out@ + (seq![cs@.skip(i as int)[0]] + replace_all(cs@.skip(i as int).skip(1), pat@, to@)));
            }
            push_char(&mut out, cs[i]);
            i = i + 1;
        }
    }
    proof {
        assert(cs@.skip(i as int).len() == 0);
        assert(out@ + replace_all(cs@.skip(i as int), pat@, to@) =~= out@);
    }
    out
}

/// The decimal digit character for `d < 10`.
pub open spec fn digit_char(d: nat) -> char {
    ((d + 48) as u32) as char
}

/// Decimal representation of `n`, without leading zeros (`"0"` for zero).
pub open spec fn decimal(n: nat) -> Seq<char>
    decreases n,
{
    if n < 10 {
        seq![digit_char(n)]
    } else {
        decimal(n / 10).push(digit_char(n % 10))
    }
}

/// The decimal representation of `n` (what `n.to_string()` gives).
pub fn u64_to_decimal(n: u64) -> (s: String)
    ensures
        s@ == decimal(n as nat),
    decreases n,
{
    if n < 10 {
        let mut s = String::new();
        let c = ((n as u8) + 48u8) as char;
        proof {
            assert(((n + 48) as u32) as char == c);
        }
        push_char(&mut s, c);
        proof {
            assert(s@ =~= seq![digit_char(n as nat)]);
        }
        s
    } else {
        let mut s = u64_to_decimal(n / 10);
        let d = n % 10;
        let c = ((d as u8) + 48u8) as char;
        proof {
            assert(((d + 48) as u32) as char == c);
        }
        push_char(&mut s, c);
        s
    }
}

/// Decimal representation of a `usize`.
pub fn usize_to_decimal(n: usize) -> (s: String)
    ensures
        s@ == decimal(n as nat),
{
    u64_to_decimal(n as u64)
}

/// First position `>= j` where `sep` occurs in `s`, or -1.
pub open spec fn find_from(s: Seq<char>, sep: Seq<char>, j: int) -> int
    decreases s.len() - j,
{
    if sep.len() == 0 || j < 0 || j + sep.len() > s.len() {
        -1
    } else if occurs_at(s, sep, j) {
        j
    } else {
        find_from(s, sep, j + 1)
    }
}

/// The pieces of `s[start..]` between non-overlapping occurrences of the non-empty
/// `sep`, found left to right.
pub open spec fn split_from(s: Seq<char>, sep: Seq<char>, start: int) -> Seq<Seq<char>>
    decreases s.len() - start,
{
    let k = find_from(s, sep, start);
    if sep.len() == 0 || start < 0 || start > s.len() || k < 0 {
        seq![s.subrange(start, s.len() as int)]
    } else {
        proof {
            lemma_find_from_range(s, sep, start);
        }
        seq![s.subrange(start, k)] + split_from(s, sep, k + sep.len())
    }
}

pub proof fn lemma_find_from_range(s: Seq<char>, sep: Seq<char>, j: int)
    ensures
        find_from(s, sep, j) >= 0 ==> j <= find_from(s, sep, j) && find_from(s, sep, j) + sep.len() <= s.len()
            && occurs_at(s, sep, find_from(s, sep, j)),
        find_from(s, sep, j) < 0 ==> find_from(s, sep, j) == -1,
    decreases s.len() - j,
{
    if !(sep.len() == 0 || j < 0 || j + sep.len() > s.len()) && !occurs_at(s, sep, j) {
        lemma_find_from_range(s, sep, j + 1);
    }
}

/// What `str::split(sep)` yields: for a non-empty separator, the pieces between its
/// non-overlapping occurrences; for the empty separator, an empty piece, each
/// character on its own, and an empty piece.
pub open spec fn split_by(s: Seq<char>, sep: Seq<char>) -> Seq<Seq<char>> {
    if sep.len() == 0 {
        seq![Seq::<char>::empty()] + s.map_values(|c: char| seq![c]) + seq![Seq::<char>::empty()]
    } else {
        split_from(s, sep, 0)
    }
}

/// `s.split(sep)` on characters, collected.
pub fn split_chars(s: &[char], sep: &[char]) -> (parts: Vec<Vec<char>>)
    ensures
        parts@.len() == split_by(s@, sep@).len(),
        forall|i: int| 0 <= i < parts@.len() ==> (#[trigger] parts@[i])@ == split_by(s@, sep@)[i],
{
    let mut parts: Vec<Vec<char>> = Vec::new();
    if sep.len() == 0 {
        let ghost expect = split_by(s@, sep@);
        parts.push(Vec::new());
        let mut i: usize = 0;
        while i < s.len()
            invariant
                i <= s@.len(),
                expect == seq![Seq::<char>::empty()] + s@.map_values(|c: char| seq![c]) + seq![Seq::<char>::empty()],
                parts@.len() == i + 1,
                forall|k: int| 0 <= k < parts@.len() ==> (#[trigger] parts@[k])@ == expect[k],
            decreases s.len() - i,
        {
            let mut one: Vec<char> = Vec::new();
            one.push(s[i]);
            proof {
                assert(expect[i + 1] == seq![s@[i as int]]);
                assert(one@ =~= seq![s@[i as int]]);
            }
            parts.push(one);
            i = i + 1;
        }
        parts.push(Vec::new());
        proof {
            assert(expect.len() == s@.len() + 2);
            assert(expect[s@.len() as int + 1] == Seq::<char>::empty());
            assert(parts@.last()@ =~= Seq::<char>::empty());
        }
        return parts;
    }
    let ghost whole = split_by(s@, sep@);
    let mut start: usize = 0;
    let mut i: usize = 0;
    while i < s.len()
        invariant
            sep@.len() > 0,
            whole == split_from(s@, sep@, 0),
            start <= i <= s@.len(),
            find_from(s@, sep@, start as int) == find_from(s@, sep@, i as int),
            parts@.len() + split_from(s@, sep@, start as int).len() == whole.len(),
            forall|k: int| 0 <= k < parts@.len() ==> (#[trigger] parts@[k])@ == whole[k],
            forall|k: int| 0 <= k < split_from(s@, sep@, start as int).len() ==>
                whole[parts@.len() + k] == #[trigger] split_from(s@, sep@, start as int)[k],
        decreases s.len() - i,
    {
        if matches_at(s, sep, i) {
            let piece = vec_from_range(s, start, i);
            proof {
                assert(find_from(s@, sep@, i as int) == i as int);
                let rest = split_from(s@, sep@, (i + sep@.len()) as int);
                assert(split_from(s@, sep@, start as int) == seq![s@.subrange(start as int, i as int)] + rest);
                assert(split_from(s@, sep@, start as int)[0] == s@.subrange(start as int, i as int));
                assert(whole[parts@.len() as int + 0] == split_from(s@, sep@, start as int)[0]);
                assert(whole[parts@.len() as int] == s@.subrange(start as int, i as int));
                assert forall|k: int| 0 <= k < rest.len() implies whole[parts@.len() + 1 + k] == #[trigger] rest[k] by {
                    assert(split_from(s@, sep@, start as int)[k + 1] == rest[k]);
                }
            }
            parts.push(piece);
            i = i + sep.len();
            start = i;
        } else {
            proof {
                if i + sep@.len() <= s@.len() {
                    assert(find_from(s@, sep@, i as int) == find_from(s@, sep@, i + 1));
                } else {
                    assert(find_from(s@, sep@, i as int) == -1);
                    assert(find_from(s@, sep@, i + 1) == -1);
                }
            }
            i = i + 1;
        }
    }
    proof {
        assert(find_from(s@, sep@, i as int) == -1);
        assert(split_from(s@, sep@, start as int) == seq![s@.subrange(start as int, s@.len() as int)]);
    }
    let ghost old_parts = parts@;
    let last = vec_from_range(s, start, s.len());
    proof {
        assert(split_from(s@, sep@, start as int)[0] == s@.subrange(start as int, s@.len() as int));
        assert(whole[parts@.len() as int + 0] == split_from(s@, sep@, start as int)[0]);
    }
    parts.push(last);
    proof {
        assert forall|i: int| 0 <= i < parts@.len() implies (#[trigger] parts@[i])@ == split_by(s@, sep@)[i] by {
            if i < parts@.len() - 1 {
                assert(parts@[i] == old_parts[i]);
            }
        }
    }
    parts
}

/// `s[from..to]` as a vector.
pub fn vec_from_range(s: &[char], from: usize, to: usize) -> (v: Vec<char>)
    requires
        from <= to <= s@.len(),
    ensures
        v@ == s@.subrange(from as int, to as int),
{
    let mut v: Vec<char> = Vec::new();
    let mut i = from;
    while i < to
        invariant
            from <= i <= to <= s@.len(),
            v@ == s@.subrange(from as int, i as int),
        decreases to - i,
    {
        proof {
            assert(s@.subrange(from as int, i + 1) =~= s@.subrange(from as int, i as int).push(s@[i as int]));
        }
        v.push(s[i]);
        i = i + 1;
    }
    v
}

/// Whether `c` has the Unicode `White_Space` property (what `char::is_whitespace`
/// tests).
pub open spec fn is_white_space(c: char) -> bool {
    let v = c as u32;
    (0x09 <= v <= 0x0D) || v == 0x20 || v == 0x85 || v == 0xA0 || v == 0x1680
        || (0x2000 <= v <= 0x200A) || v == 0x2028 || v == 0x2029 || v == 0x202F
        || v == 0x205F || v == 0x3000
}

/// `char::is_whitespace`.
pub fn char_is_white_space(c: char) -> (r: bool)
    ensures
        r == is_white_space(c),
{
    let v = c as u32;
    (0x09 <= v && v <= 0x0D) || v == 0x20 || v == 0x85 || v == 0xA0 || v == 0x1680
        || (0x2000 <= v && v <= 0x200A) || v == 0x2028 || v == 0x2029 || v == 0x202F
        || v == 0x205F || v == 0x3000
}

/// Whether `s` is empty once trimmed: every character is white space.
pub open spec fn is_blank(s: Seq<char>) -> bool {
    forall|i: int| 0 <= i < s.len() ==> is_white_space(#[trigger] s[i])
}

/// Whether `s.trim().is_empty()`.
pub fn chars_are_blank(s: &[char]) -> (r: bool)
    ensures
        r == is_blank(s@),
{
    let mut i: usize = 0;
    while i < s.len()
        invariant
            i <= s@.len(),
            forall|j: int| 0 <= j < i ==> is_white_space(#[trigger] s@[j]),
        decreases s.len() - i,
    {
        if !char_is_white_space(s[i]) {
            return false;
        }
        i = i + 1;
    }
    true
}

} // verus!
