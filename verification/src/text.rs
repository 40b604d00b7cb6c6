//! Text building blocks shared by the database backends: decimal rendering of integers,
//! substring search and replacement, and splitting on a separator.

use std::fmt::Write;
use vstd::prelude::*;
use vstd::string::*;
use vstd::utf8::{
    decode_utf8, decode_utf8_encode_utf8, decode_utf8_split, encode_utf8, encode_utf8_decode_utf8,
    encode_utf8_valid_utf8, is_ascii_chars, is_ascii_chars_encode_utf8, is_char_boundary,
    is_char_boundary_iff_not_is_continuation_byte, valid_utf8_split,
};

verus! {

/// The ASCII digit for `d`, which must be in `0..10`.
pub open spec fn digit_char(d: int) -> char {
    if d == 0 { '0' }
    else if d == 1 { '1' }
    else if d == 2 { '2' }
    else if d == 3 { '3' }
    else if d == 4 { '4' }
    else if d == 5 { '5' }
    else if d == 6 { '6' }
    else if d == 7 { '7' }
    else if d == 8 { '8' }
    else { '9' }
}

/// The decimal rendering of the natural number `n`, without leading zeros.
pub open spec fn decimal(n: nat) -> Seq<char>
    decreases n,
{
    if n < 10 {
        seq![digit_char(n as int)]
    } else {
        decimal(n / 10).push(digit_char((n % 10) as int))
    }
}

/// The decimal rendering of the integer `i`, with a leading `-` when it is negative.
pub open spec fn signed_decimal(i: int) -> Seq<char> {
    if i < 0 {
        seq!['-'] + decimal((-i) as nat)
    } else {
        decimal(i as nat)
    }
}

/// Appends `c` to `s`.
///
/// Calls `String::push`, whose documentation says that it appends the given `char` to the end of
/// the string; the contract states exactly that.
#[verifier::external_body]
pub(crate) fn push_char(s: &mut String, c: char)
    ensures
        final(s)@ == old(s)@.push(c),
{
    s.push(c)
}

/// The text that `Debug` gives for a string: the string between double quotes, with quotes,
/// backslashes, control and other non-printable characters escaped.
pub uninterp spec fn str_debug(s: Seq<char>) -> Seq<char>;

/// Appends the `Debug` rendering of `s` to `out`.
///
/// Calls `write!` with `{:?}` on the `str`, which uses `<str as Debug>::fmt`; that rendering is a
/// function of the text alone (its escaping rules come from `char::escape_debug`), and the
/// contract names it `str_debug`.
#[verifier::external_body]
pub(crate) fn push_str_debug(out: &mut String, s: &str)
    ensures
        final(out)@ == old(out)@ + str_debug(s@),
{
    let _ = write!(out, "{:?}", s);
}

fn digit(d: u128) -> (c: char)
    requires
        d < 10,
    ensures
        c == digit_char(d as int),
{
    if d == 0 { '0' }
    else if d == 1 { '1' }
    else if d == 2 { '2' }
    else if d == 3 { '3' }
    else if d == 4 { '4' }
    else if d == 5 { '5' }
    else if d == 6 { '6' }
    else if d == 7 { '7' }
    else if d == 8 { '8' }
    else { '9' }
}

/// Appends the decimal rendering of `n` to `out`.
pub fn push_decimal(out: &mut String, n: u128)
    ensures
        final(out)@ == old(out)@ + decimal(n as nat),
    decreases n,
{
    if n >= 10 {
        push_decimal(out, n / 10);
    }
    push_char(out, digit(n % 10));
    assert(final(out)@ =~= old(out)@ + decimal(n as nat));
}

/// Appends the decimal rendering of the signed integer `i` to `out`.
pub fn push_signed_decimal(out: &mut String, i: i128)
    ensures
        final(out)@ == old(out)@ + signed_decimal(i as int),
{
    if i < 0 {
        push_char(out, '-');
        let magnitude: u128 = if i == i128::MIN {
            170141183460469231731687303715884105728u128
        } else {
            (-i) as u128
        };
        push_decimal(out, magnitude);
        assert(final(out)@ =~= old(out)@ + signed_decimal(i as int));
    } else {
        push_decimal(out, i as u128);
    }
}

/// True when `pat` occurs in `s` starting at position `i`.
pub open spec fn occurs_at(s: Seq<char>, pat: Seq<char>, i: int) -> bool {
    0 <= i && i + pat.len() <= s.len() && s.subrange(i, i + pat.len()) == pat
}

/// True when `pat` occurs anywhere in `s`.
pub open spec fn contains_seq(s: Seq<char>, pat: Seq<char>) -> bool {
    exists|i: int| occurs_at(s, pat, i)
}

/// The result of replacing every occurrence of `pat` in `s` by `rep`, scanning from the left
/// and never letting two replaced occurrences overlap.
pub open spec fn replace_all(s: Seq<char>, pat: Seq<char>, rep: Seq<char>) -> Seq<char>
    recommends
        pat.len() > 0,
    decreases s.len(),
{
    if s.len() == 0 || pat.len() == 0 {
        s
    } else if occurs_at(s, pat, 0) {
        rep + replace_all(s.skip(pat.len() as int), pat, rep)
    } else {
        seq![s[0]] + replace_all(s.drop_first(), pat, rep)
    }
}

/// Copies the characters of `s` into a vector.
pub fn chars_of(s: &str) -> (r: Vec<char>)
    ensures
        r@ == s@,
{
    let mut r: Vec<char> = Vec::new();
    for c in it: s.chars()
        invariant
            r@ == it.seq().take(it.index() as int),
            it.seq() == s@,
    {
        r.push(c);
    }
    r
}

/// Whether `pat` occurs in `s` at position `i`.
pub fn occurs_at_exec(s: &Vec<char>, pat: &Vec<char>, i: usize) -> (r: bool)
    ensures
        r == occurs_at(s@, pat@, i as int),
{
    if i > s.len() || pat.len() > s.len() - i {
        return false;
    }
    let mut k: usize = 0;
    while k < pat.len()
        invariant
            i + pat.len() <= s.len(),
            k <= pat.len(),
            forall|j: int| 0 <= j < k ==> s@[i + j] == pat@[j],
        decreases pat.len() - k,
    {
        if s[i + k] != pat[k] {
            assert(s@.subrange(i as int, i + pat.len())[k as int] != pat@[k as int]);
            return false;
        }
        k = k + 1;
    }
    assert(s@.subrange(i as int, i + pat.len()) =~= pat@);
    true
}

proof fn lemma_replace_all_step(s: Seq<char>, pat: Seq<char>, rep: Seq<char>, i: int)
    requires
        pat.len() > 0,
        0 <= i < s.len(),
    ensures
        occurs_at(s, pat, i) ==> replace_all(s.skip(i), pat, rep) == rep + replace_all(
            s.skip(i + pat.len()),
            pat,
            rep,
        ),
        !occurs_at(s, pat, i) ==> replace_all(s.skip(i), pat, rep) == seq![s[i]] + replace_all(
            s.skip(i + 1),
            pat,
            rep,
        ),
{
    let t = s.skip(i);
    assert(t.len() > 0);
    if occurs_at(s, pat, i) {
        assert(t.subrange(0, pat.len() as int) =~= s.subrange(i, i + pat.len()));
        assert(t.skip(pat.len() as int) =~= s.skip(i + pat.len()));
    } else {
        if occurs_at(t, pat, 0) {
            assert(t.subrange(0, pat.len() as int) =~= s.subrange(i, i + pat.len()));
        }
        assert(t.drop_first() =~= s.skip(i + 1));
    }
}

/// Replaces every occurrence of `pat` in `s` by `rep`, as `str::replace` does.
pub fn replace_all_exec(s: &str, pat: &str, rep: &str) -> (r: String)
    requires
        pat@.len() > 0,
    ensures
        r@ == replace_all(s@, pat@, rep@),
{
    let cs = chars_of(s);
    let ps = chars_of(pat);
    let mut out = String::new();
    let mut i: usize = 0;
    assert(cs@.skip(0) =~= cs@);
    while i < cs.len()
        invariant
            cs@ == s@,
            ps@ == pat@,
            pat@.len() > 0,
            i <= cs.len(),
            out@ + replace_all(cs@.skip(i as int), ps@, rep@) == replace_all(s@, pat@, rep@),
        decreases cs.len() - i,
    {
        proof {
            lemma_replace_all_step(cs@, ps@, rep@, i as int);
        }
        if occurs_at_exec(&cs, &ps, i) {
            let ghost before = out@;
            out.append(rep);
            assert(out@ + replace_all(cs@.skip(i + ps.len()), ps@, rep@) =~= before + (rep@
                + replace_all(cs@.skip(i + ps.len()), ps@, rep@)));
            i = i + ps.len();
        } else {
            let ghost before = out@;
            push_char(&mut out, cs[i]);
            assert(out@ + replace_all(cs@.skip(i + 1), ps@, rep@) =~= before + (seq![cs@[i as int]]
                + replace_all(cs@.skip(i + 1), ps@, rep@)));
            i = i + 1;
        }
    }
    assert(cs@.skip(i as int).len() == 0);
    assert(out@ =~= out@ + replace_all(cs@.skip(i as int), ps@, rep@));
    out
}

/// Whether `pat` occurs anywhere in `s`.
pub fn contains_exec(s: &str, pat: &str) -> (r: bool)
    ensures
        r == contains_seq(s@, pat@),
{
    let cs = chars_of(s);
    let ps = chars_of(pat);
    let mut i: usize = 0;
    loop
        invariant
            cs@ == s@,
            ps@ == pat@,
            i <= cs.len(),
            forall|j: int| 0 <= j < i ==> !occurs_at(s@, pat@, j),
        ensures
            forall|j: int| 0 <= j <= cs.len() ==> !occurs_at(s@, pat@, j),
        decreases cs.len() - i,
    {
        if occurs_at_exec(&cs, &ps, i) {
            return true;
        }
        if i == cs.len() {
            break;
        }
        i = i + 1;
    }
    assert forall|j: int| !occurs_at(s@, pat@, j) by {
        if j > cs.len() {
            assert(!(j + pat@.len() <= s@.len()));
        }
    }
    false
}

/// The pieces of `s` between occurrences of `sep`, in order, as `str::split` yields them for
/// a one-character separator: there is always at least one piece, and consecutive or trailing
/// separators give empty pieces.
pub open spec fn split_on(s: Seq<char>, sep: char) -> Seq<Seq<char>>
    decreases s.len(),
{
    if s.len() == 0 {
        seq![Seq::<char>::empty()]
    } else {
        let rest = split_on(s.drop_last(), sep);
        if s.last() == sep {
            rest.push(Seq::<char>::empty())
        } else {
            rest.update(rest.len() - 1, rest.last().push(s.last()))
        }
    }
}

/// The pieces of `parts` joined together with `sep` between each two neighbours.
pub open spec fn join_with(parts: Seq<Seq<char>>, sep: char) -> Seq<char>
    decreases parts.len(),
{
    if parts.len() == 0 {
        Seq::<char>::empty()
    } else if parts.len() == 1 {
        parts[0]
    } else {
        join_with(parts.drop_last(), sep).push(sep) + parts.last()
    }
}

proof fn lemma_split_on_nonempty(s: Seq<char>, sep: char)
    ensures
        split_on(s, sep).len() >= 1,
    decreases s.len(),
{
    if s.len() > 0 {
        lemma_split_on_nonempty(s.drop_last(), sep);
    }
}

/// Splitting on a separator and joining the pieces back with it gives back the text that was split, and
/// no piece holds the separator.
pub proof fn lemma_split_join(s: Seq<char>, sep: char)
    ensures
        join_with(split_on(s, sep), sep) == s,
        forall|k: int|
            0 <= k < split_on(s, sep).len() ==> !(#[trigger] split_on(s, sep)[k]).contains(sep),
    decreases s.len(),
{
    if s.len() > 0 {
        let t = s.drop_last();
        lemma_split_join(t, sep);
        lemma_split_on_nonempty(t, sep);
        let rest = split_on(t, sep);
        if s.last() == sep {
            let parts = rest.push(Seq::<char>::empty());
            assert(parts.drop_last() =~= rest);
            assert(join_with(parts, sep) =~= t.push(sep));
            assert(s =~= t.push(sep));
            assert forall|k: int| 0 <= k < parts.len() implies !(#[trigger] parts[k]).contains(sep) by {
                if k < rest.len() {
                    assert(parts[k] == rest[k]);
                }
            }
        } else {
            let parts = rest.update(rest.len() - 1, rest.last().push(s.last()));
            let n = rest.len();
            if n == 1 {
                assert(join_with(parts, sep) == parts[0]);
                assert(join_with(rest, sep) == rest[0]);
                assert(s =~= t.push(s.last()));
            } else {
                assert(parts.drop_last() =~= rest.drop_last());
                assert(join_with(parts, sep) =~= join_with(rest.drop_last(), sep).push(sep) + rest.last().push(s.last()));
                assert(join_with(rest, sep) == join_with(rest.drop_last(), sep).push(sep) + rest.last());
                assert(s =~= t.push(s.last()));
            }
            assert forall|k: int| 0 <= k < parts.len() implies !(#[trigger] parts[k]).contains(sep) by {
                if k < n - 1 {
                    assert(parts[k] == rest[k]);
                } else {
                    assert(!rest[n - 1].contains(sep));
                    if parts[k].contains(sep) {
                        let j = choose|j: int| 0 <= j < parts[k].len() && parts[k][j] == sep;
                        if j < rest[n - 1].len() {
                            assert(rest[n - 1][j] == sep);
                        }
                    }
                }
            }
        }
    }
}

/// Splits `s` at every occurrence of `sep`, as `str::split` does with a `char` pattern.
pub fn split_exec(s: &str, sep: char) -> (r: Vec<String>)
    ensures
        r@.map_values(|p: String| p@) == split_on(s@, sep),
{
    let cs = chars_of(s);
    let mut pieces: Vec<String> = Vec::new();
    let mut cur = String::new();
    let mut i: usize = 0;
    assert(cs@.take(0) =~= Seq::<char>::empty());
    assert(pieces@.map_values(|p: String| p@).push(cur@) =~= split_on(cs@.take(0), sep));
    while i < cs.len()
        invariant
            cs@ == s@,
            i <= cs.len(),
            pieces@.map_values(|p: String| p@).push(cur@) == split_on(cs@.take(i as int), sep),
        decreases cs.len() - i,
    {
        let c = cs[i];
        let ghost prefix = cs@.take(i as int);
        assert(cs@.take(i + 1).drop_last() =~= prefix);
        assert(cs@.take(i + 1).last() == c);
        proof {
            lemma_split_on_nonempty(prefix, sep);
        }
        if c == sep {
            pieces.push(cur);
            cur = String::new();
            assert(pieces@.map_values(|p: String| p@).push(cur@) =~= split_on(prefix, sep).push(
                Seq::<char>::empty(),
            ));
        } else {
            let ghost before = pieces@.map_values(|p: String| p@);
            push_char(&mut cur, c);
            assert(pieces@.map_values(|p: String| p@).push(cur@) =~= before.push(cur@));
            assert(before.push(cur@) =~= split_on(prefix, sep).update(
                split_on(prefix, sep).len() - 1,
                split_on(prefix, sep).last().push(c),
            ));
        }
        i = i + 1;
    }
    assert(cs@.take(i as int) =~= cs@);
    pieces.push(cur);
    pieces
}

/// True when cutting `s` after `max_len` bytes of its UTF-8 encoding does not split a character,
/// or when `s` is not longer than that; `String::truncate` panics otherwise.
pub open spec fn can_truncate(s: Seq<char>, max_len: nat) -> bool {
    encode_utf8(s).len() <= max_len || is_char_boundary(encode_utf8(s), max_len as int)
}

/// `s` cut down to at most `max_len` bytes of UTF-8, as `String::truncate` leaves it.
pub open spec fn truncated(s: Seq<char>, max_len: nat) -> Seq<char> {
    if encode_utf8(s).len() <= max_len {
        s
    } else {
        decode_utf8(encode_utf8(s).take(max_len as int))
    }
}

/// An owned copy of `s` cut down to at most `max_len` bytes.
pub fn truncate_str(s: &str, max_len: usize) -> (r: String)
    requires
        can_truncate(s@, max_len as nat),
    ensures
        r@ == truncated(s@, max_len as nat),
{
    let byte_len = s.as_bytes().len();
    if byte_len <= max_len {
        s.to_owned()
    } else {
        let (head, _tail) = s.split_at(max_len);
        proof {
            encode_utf8_decode_utf8(head@);
            assert(encode_utf8(s@).take(max_len as int) =~= encode_utf8(s@).subrange(0, max_len as int));
        }
        head.to_owned()
    }
}

/// Cutting a text to `max_len` bytes keeps its first characters, keeps exactly the first
/// `max_len` bytes of its encoding (all of them when it is shorter), and leaves a text that
/// cutting again does not change.
pub proof fn lemma_truncated(s: Seq<char>, max_len: nat)
    requires
        can_truncate(s, max_len),
    ensures
        encode_utf8(truncated(s, max_len)) == encode_utf8(s).take(
            if encode_utf8(s).len() <= max_len {
                encode_utf8(s).len() as int
            } else {
                max_len as int
            },
        ),
        truncated(s, max_len).len() <= s.len(),
        s.take(truncated(s, max_len).len() as int) == truncated(s, max_len),
        can_truncate(truncated(s, max_len), max_len),
        truncated(truncated(s, max_len), max_len) == truncated(s, max_len),
{
    let b = encode_utf8(s);
    if b.len() <= max_len {
        assert(b.take(b.len() as int) =~= b);
        assert(s.take(s.len() as int) =~= s);
    } else {
        let m = max_len as int;
        encode_utf8_valid_utf8(s);
        encode_utf8_decode_utf8(s);
        decode_utf8_split(b, m);
        valid_utf8_split(b, m);
        assert(b.take(m) =~= b.subrange(0, m));
        let t = decode_utf8(b.take(m));
        let rest = decode_utf8(b.subrange(m, b.len() as int));
        assert(s == t + rest);
        assert(s.take(t.len() as int) =~= t);
        decode_utf8_encode_utf8(b.take(m));
        assert(encode_utf8(t).len() == m);
    }
}

/// Cutting a text at `n` bytes and then at `m` bytes cuts it at the smaller of the two limits:
/// the second cut is possible on the text itself, and gives the same text.
pub proof fn lemma_truncated_twice(s: Seq<char>, n: nat, m: nat)
    requires
        can_truncate(s, n),
        can_truncate(truncated(s, n), m),
    ensures
        can_truncate(s, if m < n { m } else { n }),
        truncated(truncated(s, n), m) == truncated(s, if m < n { m } else { n }),
{
    lemma_truncated(s, n);
    let b = encode_utf8(s);
    let t = truncated(s, n);
    let bt = encode_utf8(t);
    if m < n && b.len() > m {
        let k: int = if b.len() <= n { b.len() as int } else { n as int };
        assert(bt == b.take(k));
        assert(bt.len() > m);
        encode_utf8_valid_utf8(s);
        encode_utf8_valid_utf8(t);
        assert(bt[m as int] == b[m as int]);
        is_char_boundary_iff_not_is_continuation_byte(b, m as int);
        is_char_boundary_iff_not_is_continuation_byte(bt, m as int);
        assert(is_char_boundary(bt, m as int));
        assert(is_char_boundary(b, m as int));
        assert(bt.take(m as int) =~= b.take(m as int));
    }
}

/// Cutting an ASCII text to `max_len` bytes never splits a character and keeps its first
/// `max_len` characters.
pub proof fn lemma_truncated_ascii(s: Seq<char>, max_len: nat)
    requires
        is_ascii_chars(s),
    ensures
        can_truncate(s, max_len),
        truncated(s, max_len) == s.take(
            if s.len() <= max_len {
                s.len() as int
            } else {
                max_len as int
            },
        ),
{
    let b = encode_utf8(s);
    is_ascii_chars_encode_utf8(s);
    if s.len() <= max_len {
        assert(s.take(s.len() as int) =~= s);
    } else {
        let m = max_len as int;
        encode_utf8_valid_utf8(s);
        assert(b[m] == s[m] as u8);
        assert(s[m] as u8 <= 0x7f) by {
            assert('\0' <= s[m] <= '\u{7f}');
        }
        is_char_boundary_iff_not_is_continuation_byte(b, m);
        lemma_truncated(s, max_len);
        let t = truncated(s, max_len);
        assert(t == s.take(t.len() as int));
        assert(is_ascii_chars(t)) by {
            assert forall|i: int| 0 <= i < t.len() implies '\0' <= #[trigger] t[i] <= '\u{7f}' by {
                assert(t[i] == s[i]);
            }
        }
        is_ascii_chars_encode_utf8(t);
        assert(encode_utf8(t).len() == m);
    }
}

/// The number of times `c` occurs in `s`.
pub open spec fn count_char(s: Seq<char>, c: char) -> nat
    decreases s.len(),
{
    if s.len() == 0 {
        0
    } else {
        count_char(s.drop_last(), c) + (if s.last() == c {
            1nat
        } else {
            0nat
        })
    }
}

/// Counting a character in two texts put together counts it in each.
pub proof fn lemma_count_char_concat(a: Seq<char>, b: Seq<char>, c: char)
    ensures
        count_char(a + b, c) == count_char(a, c) + count_char(b, c),
    decreases b.len(),
{
    if b.len() == 0 {
        assert(a + b =~= a);
    } else {
        lemma_count_char_concat(a, b.drop_last(), c);
        assert((a + b).drop_last() =~= a + b.drop_last());
        assert((a + b).last() == b.last());
    }
}

/// A text of one character counts `c` once when it is that character.
pub proof fn lemma_count_char_single(x: char, c: char)
    ensures
        count_char(seq![x], c) == (if x == c {
            1nat
        } else {
            0nat
        }),
{
    assert(seq![x].drop_last() =~= Seq::<char>::empty());
    assert(count_char(Seq::<char>::empty(), c) == 0);
}

/// A text without `c` counts no `c`.
pub proof fn lemma_count_char_absent(s: Seq<char>, c: char)
    requires
        !s.contains(c),
    ensures
        count_char(s, c) == 0,
    decreases s.len(),
{
    if s.len() > 0 {
        let t = s.drop_last();
        if t.contains(c) {
            let j = choose|j: int| 0 <= j < t.len() && t[j] == c;
            assert(s[j] == c);
        }
        if s.last() == c {
            assert(s[s.len() - 1] == c);
        }
        lemma_count_char_absent(t, c);
    }
}

/// A decimal rendering holds nothing but digits, so it counts no `$`.
pub proof fn lemma_decimal_has_no_dollar(n: nat)
    ensures
        count_char(decimal(n), '$') == 0,
    decreases n,
{
    let d = digit_char((n % 10) as int);
    assert(d != '$');
    if n < 10 {
        assert(seq![d].drop_last() =~= Seq::<char>::empty());
        assert(count_char(Seq::<char>::empty(), '$') == 0);
        assert(decimal(n) == seq![d]);
        assert(seq![d].last() == d);
    } else {
        lemma_decimal_has_no_dollar(n / 10);
        assert(decimal(n).drop_last() =~= decimal(n / 10));
        assert(decimal(n).last() == d);
    }
}

/// Replacing a pattern by a text, neither of which holds `c`, keeps the number of `c` in a text.
pub proof fn lemma_replace_all_keeps_count(s: Seq<char>, pat: Seq<char>, rep: Seq<char>, c: char)
    requires
        pat.len() > 0,
        count_char(pat, c) == 0,
        count_char(rep, c) == 0,
    ensures
        count_char(replace_all(s, pat, rep), c) == count_char(s, c),
    decreases s.len(),
{
    if s.len() > 0 {
        if occurs_at(s, pat, 0) {
            let rest = s.skip(pat.len() as int);
            lemma_replace_all_keeps_count(rest, pat, rep, c);
            lemma_count_char_concat(rep, replace_all(rest, pat, rep), c);
            assert(s =~= s.subrange(0, pat.len() as int) + rest);
            lemma_count_char_concat(pat, rest, c);
        } else {
            let rest = s.drop_first();
            lemma_replace_all_keeps_count(rest, pat, rep, c);
            lemma_count_char_concat(seq![s[0]], replace_all(rest, pat, rep), c);
            assert(s =~= seq![s[0]] + rest);
            lemma_count_char_concat(seq![s[0]], rest, c);
        }
    }
}

/// True when `c` is one of the decimal digits `0` to `9`.
pub open spec fn is_decimal_digit(c: char) -> bool {
    '0' <= c <= '9'
}

/// Every character of a decimal rendering is a digit, and there is at least one.
pub proof fn lemma_decimal_digits(n: nat)
    ensures
        decimal(n).len() >= 1,
        forall|i: int| 0 <= i < decimal(n).len() ==> is_decimal_digit(#[trigger] decimal(n)[i]),
    decreases n,
{
    let d = digit_char((n % 10) as int);
    assert(is_decimal_digit(d));
    if n >= 10 {
        lemma_decimal_digits(n / 10);
        let p = decimal(n / 10);
        assert forall|i: int| 0 <= i < decimal(n).len() implies is_decimal_digit(
            #[trigger] decimal(n)[i],
        ) by {
            if i < p.len() {
                assert(decimal(n)[i] == p[i]);
            }
        }
    }
}

/// A text that counts no `c` holds no `c` at any position.
pub proof fn lemma_count_char_zero(s: Seq<char>, c: char)
    requires
        count_char(s, c) == 0,
    ensures
        forall|i: int| 0 <= i < s.len() ==> s[i] != c,
    decreases s.len(),
{
    if s.len() > 0 {
        lemma_count_char_zero(s.drop_last(), c);
        assert forall|i: int| 0 <= i < s.len() implies s[i] != c by {
            if i < s.len() - 1 {
                assert(s[i] == s.drop_last()[i]);
            }
        }
    }
}

/// True when the `$` at position `i` of `s` is the placeholder `$k`: it is followed by the
/// decimal digits of `k`, and then by the end of `s` or by a character that is not a digit.
pub open spec fn placeholder_at(s: Seq<char>, i: int, k: nat) -> bool {
    let d = decimal(k);
    &&& i + 1 + d.len() <= s.len()
    &&& s.subrange(i + 1, i + 1 + d.len()) == d
    &&& (i + 1 + d.len() == s.len() || !is_decimal_digit(s[i + 1 + d.len()]))
}

/// True when the `$` placeholders of `s` are numbered in the order in which they occur, the
/// first one `$<before + 1>`: the `$` that follows `j` others is `$<before + j + 1>`.
pub open spec fn placeholders_numbered_from(s: Seq<char>, before: nat) -> bool {
    forall|i: int|
        #![trigger s[i]]
        0 <= i < s.len() && s[i] == '$' ==> placeholder_at(
            s,
            i,
            before + count_char(s.take(i), '$') + 1,
        )
}

/// Two texts whose placeholders are numbered in order, the second one continuing the numbering
/// of the first and not starting with a digit, are numbered in order when put together.
pub proof fn lemma_placeholders_numbered_concat(a: Seq<char>, b: Seq<char>, before: nat)
    requires
        placeholders_numbered_from(a, before),
        placeholders_numbered_from(b, before + count_char(a, '$')),
        b.len() == 0 || !is_decimal_digit(b[0]),
    ensures
        placeholders_numbered_from(a + b, before),
{
    let s = a + b;
    assert forall|i: int| #![trigger s[i]] 0 <= i < s.len() && s[i] == '$' implies placeholder_at(
        s,
        i,
        before + count_char(s.take(i), '$') + 1,
    ) by {
        if i < a.len() {
            assert(s.take(i) =~= a.take(i));
            assert(a[i] == '$');
            let k = before + count_char(a.take(i), '$') + 1;
            assert(placeholder_at(a, i, k));
            let e = i + 1 + decimal(k).len();
            assert(s.subrange(i + 1, e) =~= a.subrange(i + 1, e));
            if e < a.len() {
                assert(s[e] == a[e]);
            } else if e < s.len() {
                assert(s[e] == b[0]);
            }
        } else {
            let j = i - a.len();
            assert(s.take(i) =~= a + b.take(j));
            lemma_count_char_concat(a, b.take(j), '$');
            assert(b[j] == '$');
            let k = before + count_char(a, '$') + count_char(b.take(j), '$') + 1;
            assert(placeholder_at(b, j, k));
            let e = j + 1 + decimal(k).len();
            assert(s.subrange(i + 1, i + 1 + decimal(k).len()) =~= b.subrange(j + 1, e));
            if e < b.len() {
                assert(s[i + 1 + decimal(k).len()] == b[e]);
            }
        }
    }
}

/// A text without `$` has its (no) placeholders numbered in order, whatever comes before.
pub proof fn lemma_placeholders_numbered_none(s: Seq<char>, before: nat)
    requires
        count_char(s, '$') == 0,
    ensures
        placeholders_numbered_from(s, before),
{
    lemma_count_char_zero(s, '$');
}

/// The placeholder `$<before + 1>` alone is numbered in order after `before` others, and counts
/// one `$`.
pub proof fn lemma_placeholder_token(before: nat)
    ensures
        placeholders_numbered_from(seq!['$'] + decimal(before + 1), before),
        count_char(seq!['$'] + decimal(before + 1), '$') == 1,
{
    let d = decimal(before + 1);
    let t = seq!['$'] + d;
    lemma_decimal_digits(before + 1);
    lemma_decimal_has_no_dollar(before + 1);
    lemma_count_char_single('$', '$');
    lemma_count_char_concat(seq!['$'], d, '$');
    assert forall|i: int| #![trigger t[i]] 0 <= i < t.len() && t[i] == '$' implies placeholder_at(
        t,
        i,
        before + count_char(t.take(i), '$') + 1,
    ) by {
        if i > 0 {
            assert(t[i] == d[i - 1]);
            assert(is_decimal_digit(d[i - 1]));
        } else {
            assert(t.take(0) =~= Seq::<char>::empty());
            assert(t.subrange(1, 1 + d.len() as int) =~= d);
        }
    }
}

} // verus!
