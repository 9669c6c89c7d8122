//! Searching and cutting UTF-8 text, specified over sequences of characters.

use vstd::prelude::*;
use vstd::string::*;
use vstd::utf8::*;

verus! {

/// `pat` stands in `text` at index `i`.
pub open spec fn occurs_at<T>(text: Seq<T>, pat: Seq<T>, i: int) -> bool {
    &&& 0 <= i
    &&& i + pat.len() <= text.len()
    &&& text.subrange(i, i + pat.len()) == pat
}

/// `pat` stands somewhere in `text`.
pub open spec fn occurs_in<T>(text: Seq<T>, pat: Seq<T>) -> bool {
    exists|i: int| occurs_at(text, pat, i)
}

/// `i` is the leftmost index at which `pat` stands in `text`.
pub open spec fn first_occurrence<T>(text: Seq<T>, pat: Seq<T>, i: int) -> bool {
    &&& occurs_at(text, pat, i)
    &&& forall|j: int| 0 <= j < i ==> !#[trigger] occurs_at(text, pat, j)
}

fn matches_at(hay: &[u8], pat: &[u8], at: usize) -> (r: bool)
    ensures
        r == occurs_at(hay@, pat@, at as int),
{
    if pat.len() > hay.len() || at > hay.len() - pat.len() {
        return false;
    }
    let mut k: usize = 0;
    while k < pat.len()
        invariant
            k <= pat.len(),
            at + pat.len() <= hay.len(),
            forall|j: int| 0 <= j < k ==> hay@[at + j] == pat@[j],
        decreases pat.len() - k,
    {
        if hay[at + k] != pat[k] {
            assert(hay@.subrange(at as int, at + pat@.len())[k as int] == hay@[at + k]);
            return false;
        }
        k += 1;
    }
    assert(hay@.subrange(at as int, at + pat@.len()) =~= pat@);
    true
}

fn find_bytes(hay: &[u8], pat: &[u8]) -> (r: Option<usize>)
    ensures
        match r {
            Some(i) => first_occurrence(hay@, pat@, i as int),
            None => !occurs_in(hay@, pat@),
        },
{
    if pat.len() > hay.len() {
        return None;
    }
    let last: usize = hay.len() - pat.len();
    let mut i: usize = 0;
    loop
        invariant
            i <= last,
            last == hay.len() - pat.len(),
            forall|j: int| 0 <= j < i ==> !#[trigger] occurs_at(hay@, pat@, j),
        decreases last - i,
    {
        if matches_at(hay, pat, i) {
            return Some(i);
        }
        if i == last {
            return None;
        }
        i += 1;
    }
}

/// Encoding distributes over concatenation.
proof fn lemma_encode_concat(a: Seq<char>, b: Seq<char>)
    ensures
        encode_utf8(a + b) == encode_utf8(a) + encode_utf8(b),
    decreases a.len(),
{
    if a.len() == 0 {
        assert(a + b =~= b);
        assert(encode_utf8(a) + encode_utf8(b) =~= encode_utf8(b));
    } else {
        lemma_encode_concat(a.drop_first(), b);
        assert((a + b).drop_first() =~= a.drop_first() + b);
        assert(encode_utf8(a + b) =~= encode_utf8(a) + encode_utf8(b));
    }
}

/// A text that is not empty has an encoding that is not empty.
proof fn lemma_encode_nonempty(a: Seq<char>)
    requires
        a.len() > 0,
    ensures
        encode_utf8(a).len() > 0,
{
}

/// Two texts with the same encoding are the same text.
proof fn lemma_encode_injective(a: Seq<char>, b: Seq<char>)
    requires
        encode_utf8(a) == encode_utf8(b),
    ensures
        a == b,
{
    encode_utf8_decode_utf8(a);
    encode_utf8_decode_utf8(b);
}

/// In a well-formed encoding, the place behind a well-formed prefix is a
/// character boundary, and what follows it is well formed too.
proof fn lemma_boundary_after_prefix(b: Seq<u8>, k: int)
    requires
        valid_utf8(b),
        0 <= k <= b.len(),
        valid_utf8(b.subrange(0, k)),
    ensures
        valid_utf8(b.subrange(k, b.len() as int)),
        is_char_boundary(b, k),
{
    let rest = b.subrange(k, b.len() as int);
    if !valid_utf8(rest) {
        partial_valid_partial_invalid_utf8(b, k);
    }
    if k == b.len() {
        is_char_boundary_start_end_of_seq(b);
    } else {
        assert(valid_first_scalar(rest));
        assert(rest[0] == b[k]);
        is_char_boundary_iff_not_is_continuation_byte(b, k);
    }
}

/// In a well-formed encoding, the place where a well-formed pattern that is
/// not empty stands is a character boundary.
proof fn lemma_boundary_at_occurrence(b: Seq<u8>, p: Seq<u8>, i: int)
    requires
        valid_utf8(b),
        valid_utf8(p),
        p.len() > 0,
        occurs_at(b, p, i),
    ensures
        is_char_boundary(b, i),
{
    assert(valid_first_scalar(p));
    assert(b.subrange(i, i + p.len())[0] == b[i]);
    is_char_boundary_iff_not_is_continuation_byte(b, i);
}

/// Where `pat` stands in `text`, its encoding stands in the encoding of
/// `text`, behind the encoding of what precedes it.
proof fn lemma_occurrence_encoded(text: Seq<char>, pat: Seq<char>, j: int)
    requires
        occurs_at(text, pat, j),
    ensures
        occurs_at(encode_utf8(text), encode_utf8(pat), encode_utf8(text.subrange(0, j)).len() as int),
{
    let head = text.subrange(0, j);
    let tail = text.subrange(j + pat.len(), text.len() as int);
    assert(text =~= head + pat + tail);
    lemma_encode_concat(head + pat, tail);
    lemma_encode_concat(head, pat);
    let eh = encode_utf8(head);
    let ep = encode_utf8(pat);
    let et = encode_utf8(tail);
    assert(encode_utf8(text) == eh + ep + et);
    assert((eh + ep + et).subrange(eh.len() as int, (eh.len() + ep.len()) as int) =~= ep);
}

/// A longer prefix of a text has a longer encoding.
proof fn lemma_prefix_encoding_grows(text: Seq<char>, j: int, k: int)
    requires
        0 <= j < k <= text.len(),
    ensures
        encode_utf8(text.subrange(0, j)).len() < encode_utf8(text.subrange(0, k)).len(),
{
    let gap = text.subrange(j, k);
    assert(text.subrange(0, k) =~= text.subrange(0, j) + gap);
    lemma_encode_concat(text.subrange(0, j), gap);
    lemma_encode_nonempty(gap);
}

/// Cuts `s` in two at the byte offset `mid`.
fn cut<'a>(s: &'a str, mid: usize) -> (r: (&'a str, &'a str))
    requires
        is_char_boundary(s.spec_bytes(), mid as int),
    ensures
        s@ == r.0@ + r.1@,
        r.0.spec_bytes() == s.spec_bytes().subrange(0, mid as int),
        r.1.spec_bytes() == s.spec_bytes().subrange(mid as int, s.spec_bytes().len() as int),
{
    let r = s.split_at(mid);
    proof {
        let b = s.spec_bytes();
        encode_utf8_valid_utf8(s@);
        decode_utf8_split(b, mid as int);
        encode_utf8_decode_utf8(s@);
        encode_utf8_decode_utf8(r.0@);
        encode_utf8_decode_utf8(r.1@);
    }
    r
}

/// Takes `prefix` off the front of `s`, if `s` starts with it.
pub fn strip_prefix<'a>(s: &'a str, prefix: &str) -> (r: Option<&'a str>)
    ensures
        match r {
            Some(rest) => s@ == prefix@ + rest@,
            None => !prefix@.is_prefix_of(s@),
        },
{
    let sb = s.as_bytes();
    let pb = prefix.as_bytes();
    if matches_at(sb, pb, 0) {
        proof {
            encode_utf8_valid_utf8(s@);
            encode_utf8_valid_utf8(prefix@);
            lemma_boundary_after_prefix(sb@, pb@.len() as int);
        }
        let (head, rest) = cut(s, pb.len());
        proof {
            lemma_encode_injective(head@, prefix@);
        }
        Some(rest)
    } else {
        proof {
            if prefix@.is_prefix_of(s@) {
                assert(occurs_at(s@, prefix@, 0));
                lemma_occurrence_encoded(s@, prefix@, 0);
                assert(s@.subrange(0, 0) =~= Seq::<char>::empty());
            }
        }
        None
    }
}

/// Takes `suffix` off the end of `s`, if `s` ends with it.
pub fn strip_suffix<'a>(s: &'a str, suffix: &str) -> (r: Option<&'a str>)
    ensures
        match r {
            Some(rest) => s@ == rest@ + suffix@,
            None => !suffix@.is_suffix_of(s@),
        },
{
    let sb = s.as_bytes();
    let pb = suffix.as_bytes();
    if pb.len() <= sb.len() && matches_at(sb, pb, sb.len() - pb.len()) {
        let at: usize = sb.len() - pb.len();
        proof {
            encode_utf8_valid_utf8(s@);
            encode_utf8_valid_utf8(suffix@);
            if pb@.len() == 0 {
                is_char_boundary_start_end_of_seq(sb@);
            } else {
                lemma_boundary_at_occurrence(sb@, pb@, at as int);
            }
        }
        let (rest, tail) = cut(s, at);
        proof {
            lemma_encode_injective(tail@, suffix@);
        }
        Some(rest)
    } else {
        proof {
            if suffix@.is_suffix_of(s@) {
                let j = s@.len() - suffix@.len();
                assert(occurs_at(s@, suffix@, j));
                lemma_occurrence_encoded(s@, suffix@, j);
                assert(s@ =~= s@.subrange(0, j) + suffix@);
                lemma_encode_concat(s@.subrange(0, j), suffix@);
            }
        }
        None
    }
}

/// Cuts `s` around the leftmost place where `pat` stands in it.
pub fn split_once<'a>(s: &'a str, pat: &str) -> (r: Option<(&'a str, &'a str)>)
    ensures
        match r {
            Some((before, after)) => {
                &&& s@ == before@ + pat@ + after@
                &&& first_occurrence(s@, pat@, before@.len() as int)
            },
            None => !occurs_in(s@, pat@),
        },
{
    let sb = s.as_bytes();
    let pb = pat.as_bytes();
    match find_bytes(sb, pb) {
        Some(at) => {
            proof {
                encode_utf8_valid_utf8(s@);
                encode_utf8_valid_utf8(pat@);
                if pb@.len() > 0 {
                    lemma_boundary_at_occurrence(sb@, pb@, at as int);
                } else {
                    assert(sb@.subrange(0, 0) =~= pb@);
                    assert(occurs_at(sb@, pb@, 0));
                    is_char_boundary_start_end_of_seq(sb@);
                }
            }
            let (before, tail) = cut(s, at);
            proof {
                encode_utf8_valid_utf8(tail@);
                assert(tail.spec_bytes().subrange(0, pb@.len() as int) =~= pb@);
                lemma_boundary_after_prefix(tail.spec_bytes(), pb@.len() as int);
            }
            let (mid, after) = cut(tail, pb.len());
            proof {
                lemma_encode_injective(mid@, pat@);
                let n = before@.len() as int;
                assert(s@ =~= before@ + pat@ + after@);
                assert(s@.subrange(n, n + pat@.len()) =~= pat@);
                assert forall|j: int| 0 <= j < n implies !#[trigger] occurs_at(s@, pat@, j) by {
                    if occurs_at(s@, pat@, j) {
                        lemma_occurrence_encoded(s@, pat@, j);
                        lemma_prefix_encoding_grows(s@, j, n);
                        assert(s@.subrange(0, n) =~= before@);
                    }
                }
            }
            Some((before, after))
        },
        None => {
            proof {
                if occurs_in(s@, pat@) {
                    let j = choose|j: int| occurs_at(s@, pat@, j);
                    lemma_occurrence_encoded(s@, pat@, j);
                }
            }
            None
        },
    }
}

} // verus!
