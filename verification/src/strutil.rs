//! Character-level string utilities shared by the provider, lister and
//! workflow modules: indexed access to the characters of a string slice,
//! decimal parsing, concatenation, and path-segment escaping.

use vstd::prelude::*;
use vstd::string::StrSliceExecFns;
use vstd::string::StringExecFns;

verus! {

/// The characters of `s`, collected so that they can be scanned by index.
pub fn to_chars(s: &str) -> (r: Vec<char>)
    ensures
        r@ == s@,
{
    let n = s.unicode_len();
    let mut v: Vec<char> = Vec::new();
    let mut i: usize = 0;
    while i < n
        invariant
            n == s@.len(),
            i <= n,
            v@ == s@.take(i as int),
        decreases n - i,
    {
        v.push(s.get_char(i));
        assert(v@ =~= s@.take(i + 1 as int));
        i += 1;
    }
    assert(s@.take(n as int) =~= s@);
    v
}

pub open spec fn is_dec_digit(c: char) -> bool {
    48 <= c as u32 <= 57
}

pub open spec fn digit_val(c: char) -> nat {
    (c as u32 - 48) as nat
}

pub open spec fn all_dec_digits(s: Seq<char>) -> bool {
    forall|i: int| 0 <= i < s.len() ==> is_dec_digit(#[trigger] s[i])
}

/// The value of a decimal digit string, most significant digit first.
pub open spec fn dec_val(s: Seq<char>) -> nat
    decreases s.len(),
{
    if s.len() == 0 {
        0
    } else {
        10 * dec_val(s.drop_last()) + digit_val(s.last())
    }
}

/// A prefix of a digit string never has a larger value than the whole string.
pub proof fn lemma_dec_val_take_le(s: Seq<char>, i: int)
    requires
        0 <= i <= s.len(),
    ensures
        dec_val(s.take(i)) <= dec_val(s),
    decreases s.len() - i,
{
    if i == s.len() {
        assert(s.take(i) =~= s);
    } else {
        assert(s.take(i + 1).drop_last() =~= s.take(i));
        assert(dec_val(s.take(i + 1)) == 10 * dec_val(s.take(i)) + digit_val(s.take(i + 1).last()));
        lemma_dec_val_take_le(s, i + 1);
    }
}

/// Parses a whole digit string as a decimal number. `None` exactly when the
/// string is empty, holds a non-digit, or its value does not fit in `u32`.
pub fn parse_dec_u32(v: &Vec<char>) -> (r: Option<u32>)
    ensures
        r is Some <==> v@.len() > 0 && all_dec_digits(v@) && dec_val(v@) <= u32::MAX,
        r matches Some(n) ==> n as nat == dec_val(v@),
{
    if v.len() == 0 {
        return None;
    }
    let mut acc: u32 = 0;
    let mut i: usize = 0;
    while i < v.len()
        invariant
            i <= v@.len(),
            all_dec_digits(v@.take(i as int)),
            acc as nat == dec_val(v@.take(i as int)),
        decreases v@.len() - i,
    {
        let ghost pre = v@.take(i as int);
        let c = v[i];
        let cv = c as u32;
        if cv < 48 || cv > 57 {
            assert(!is_dec_digit(v@[i as int]));
            return None;
        }
        let d: u32 = cv - 48;
        let wide: u64 = acc as u64 * 10 + d as u64;
        proof {
            assert(v@.take(i + 1 as int).drop_last() =~= pre);
            assert(v@.take(i + 1 as int).last() == v@[i as int]);
            assert(dec_val(v@.take(i + 1 as int)) == 10 * dec_val(pre) + digit_val(
                v@[i as int],
            ));
            assert(digit_val(v@[i as int]) == d as nat);
            assert forall|j: int| 0 <= j < i + 1 implies is_dec_digit(
                #[trigger] v@.take(i + 1 as int)[j],
            ) by {
                assert(v@.take(i + 1 as int)[j] == v@[j]);
                if j < i {
                    assert(is_dec_digit(pre[j]));
                    assert(pre[j] == v@[j]);
                }
            }
        }
        if wide > u32::MAX as u64 {
            proof {
                lemma_dec_val_take_le(v@, i + 1);
            }
            return None;
        }
        acc = wide as u32;
        i += 1;
    }
    assert(v@.take(v@.len() as int) =~= v@);
    Some(acc)
}

/// The texts of a sequence of strings.
pub open spec fn strings_view(s: Seq<String>) -> Seq<Seq<char>> {
    s.map_values(|x: String| x@)
}

/// Whether the digit characters `0` to `9` include `c`.
pub fn dec_digit(c: char) -> (r: bool)
    ensures
        r == is_dec_digit(c),
{
    let cv = c as u32;
    48 <= cv && cv <= 57
}

/// Whether two string slices hold the same text.
pub fn str_eq(a: &str, b: &str) -> (r: bool)
    ensures
        r == (a@ == b@),
{
    let x = a.to_owned();
    let y = b.to_owned();
    x == y
}

/// A freshly allocated copy of a string slice.
pub fn str_to_string(a: &str) -> (r: String)
    ensures
        r@ == a@,
{
    a.to_owned()
}

/// `needle` stands in `hay` at position `k`.
pub open spec fn sub_at(hay: Seq<char>, needle: Seq<char>, k: int) -> bool {
    0 <= k && k + needle.len() <= hay.len() && hay.subrange(k, k + needle.len()) == needle
}

/// `hay` holds `needle` somewhere as a contiguous run.
pub open spec fn contains_sub(hay: Seq<char>, needle: Seq<char>) -> bool {
    exists|k: int| sub_at(hay, needle, k)
}

/// Whether `hay` holds `needle` as a contiguous run of characters.
pub fn str_contains(hay: &str, needle: &str) -> (r: bool)
    ensures
        r == contains_sub(hay@, needle@),
{
    let h = to_chars(hay);
    let nd = to_chars(needle);
    let hn = h.len();
    let m = nd.len();
    if m > hn {
        proof {
            assert forall|k: int| !sub_at(hay@, needle@, k) by {}
        }
        return false;
    }
    let mut k: usize = 0;
    while k <= hn - m
        invariant
            h@ == hay@,
            nd@ == needle@,
            hn == hay@.len(),
            m == needle@.len(),
            m <= hn,
            k <= hn - m + 1,
            forall|q: int| 0 <= q < k ==> !sub_at(hay@, needle@, q),
        decreases hn - m + 1 - k,
    {
        let mut l: usize = 0;
        let mut all_match = true;
        while l < m
            invariant
                h@ == hay@,
                nd@ == needle@,
                hn == hay@.len(),
                m == needle@.len(),
                m <= hn,
                k <= hn - m,
                l <= m,
                all_match == (forall|q: int|
                    0 <= q < l ==> hay@[k + q] == needle@[q]),
            decreases m - l,
        {
            let same = h[k + l] == nd[l];
            proof {
                if all_match && same {
                    assert forall|q: int| 0 <= q < l + 1 implies hay@[k + q] == needle@[q] by {}
                }
                if !same {
                    assert(!(hay@[k + l as int] == needle@[l as int]));
                }
            }
            all_match = all_match && same;
            l += 1;
        }
        proof {
            if all_match {
                assert(hay@.subrange(k as int, k + m as int) =~= needle@);
                assert(sub_at(hay@, needle@, k as int));
            } else {
                let q = choose|q: int| 0 <= q < m && hay@[k + q] != needle@[q];
                assert forall|kk: int| kk == k as int implies !sub_at(hay@, needle@, kk) by {
                    if sub_at(hay@, needle@, kk) {
                        assert(hay@.subrange(kk, kk + needle@.len() as int)[q] == hay@[kk + q]);
                    }
                }
            }
        }
        if all_match {
            return true;
        }
        k += 1;
    }
    proof {
        assert forall|q: int| !sub_at(hay@, needle@, q) by {
            if sub_at(hay@, needle@, q) {
                assert(0 <= q <= hn - m);
            }
        }
    }
    false
}

/// The concatenation of two string slices.
pub fn str_concat(a: &str, b: &str) -> (r: String)
    ensures
        r@ == a@ + b@,
{
    let mut s = String::from_str(a);
    s.append(b);
    s
}

/// The concatenation of three string slices.
pub fn str_concat3(a: &str, b: &str, c: &str) -> (r: String)
    ensures
        r@ == a@ + b@ + c@,
{
    let mut s = String::from_str(a);
    s.append(b);
    s.append(c);
    s
}

/// `base` and `tail`, joined by a single separating slash.
pub fn join_path(base: &str, tail: &str) -> (r: String)
    ensures
        r@ == base@ + "/"@ + tail@,
{
    str_concat3(base, "/", tail)
}

/// Every `/` replaced by the escape `%2F`; all other characters kept.
pub open spec fn escape_slashes_seq(s: Seq<char>) -> Seq<char>
    decreases s.len(),
{
    if s.len() == 0 {
        Seq::empty()
    } else {
        escape_slashes_seq(s.drop_last()) + (if s.last() == '/' {
            seq!['%', '2', 'F']
        } else {
            seq![s.last()]
        })
    }
}

/// Escapes the path separators of a collection path for use as a single
/// URL path segment.
pub fn escape_slashes(s: &str) -> (r: String)
    ensures
        r@ == escape_slashes_seq(s@),
{
    let chars = to_chars(s);
    let mut out = String::new();
    let mut i: usize = 0;
    while i < chars.len()
        invariant
            chars@ == s@,
            i <= s@.len(),
            out@ == escape_slashes_seq(s@.take(i as int)),
        decreases s@.len() - i,
    {
        let c = chars[i];
        proof {
            assert(s@.take(i + 1 as int).drop_last() =~= s@.take(i as int));
            assert(s@.take(i + 1 as int).last() == s@[i as int]);
        }
        if c == '/' {
            out.append("%2F");
            proof {
                reveal_strlit("%2F");
                assert(out@ =~= escape_slashes_seq(s@.take(i + 1 as int)));
            }
        } else {
            let piece = char_to_string(c);
            out.append(piece.as_str());
            proof {
                assert(out@ =~= escape_slashes_seq(s@.take(i + 1 as int)));
            }
        }
        i += 1;
    }
    assert(s@.take(s@.len() as int) =~= s@);
    out
}

/// A string holding exactly the one character given.
pub fn char_to_string(c: char) -> (r: String)
    ensures
        r@ == seq![c],
{
    let v: Vec<char> = vec![c];
    chars_to_string(&v)
}

/// The string whose characters are exactly those of `v`.
pub fn chars_to_string(v: &Vec<char>) -> (r: String)
    ensures
        r@ == v@,
{
    let mut out = String::new();
    let mut i: usize = 0;
    while i < v.len()
        invariant
            i <= v@.len(),
            out@ == v@.take(i as int),
        decreases v@.len() - i,
    {
        push_char(&mut out, v[i]);
        assert(out@ =~= v@.take(i + 1 as int));
        i += 1;
    }
    assert(v@.take(v@.len() as int) =~= v@);
    out
}

/// Relies on std's String::push: appends exactly the one character given.
#[verifier::external_body]
fn push_char(s: &mut String, c: char)
    ensures
        final (s)@ == old(s)@ + seq![c],
{
    s.push(c);
}

} // verus!
