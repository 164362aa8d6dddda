//! Small verified string helpers: character-level equality, decimal
//! rendering of integers, zero-padded fields, and collapsing of doubled
//! slashes in object-store keys.

use vstd::prelude::*;

verus! {

/// Character-by-character string equality, proved against the string views.
pub fn str_eq(a: &str, b: &str) -> (r: bool)
    ensures
        r == (a@ == b@),
{
    let alen = a.unicode_len();
    let blen = b.unicode_len();
    if alen != blen {
        return false;
    }
    let mut i: usize = 0;
    while i < alen
        invariant
            i <= alen,
            alen == a@.len(),
            blen == b@.len(),
            alen == blen,
            forall|j: int| 0 <= j < i ==> a@[j] == b@[j],
        decreases alen - i,
    {
        if a.get_char(i) != b.get_char(i) {
            return false;
        }
        i += 1;
    }
    proof {
        assert(a@ =~= b@);
    }
    true
}

/// A content copy of a string: the views agree.
pub fn clone_string(s: &String) -> (r: String)
    ensures
        r@ == s@,
{
    String::from_str(s.as_str())
}

/// The character for a single decimal digit.
pub open spec fn spec_digit(d: int) -> char {
    if d == 0 {
        '0'
    } else if d == 1 {
        '1'
    } else if d == 2 {
        '2'
    } else if d == 3 {
        '3'
    } else if d == 4 {
        '4'
    } else if d == 5 {
        '5'
    } else if d == 6 {
        '6'
    } else if d == 7 {
        '7'
    } else if d == 8 {
        '8'
    } else {
        '9'
    }
}

/// Decimal representation of a non-negative integer, most significant digit
/// first, with no leading zeros (a lone zero for 0).
pub open spec fn spec_dec(n: int) -> Seq<char>
    decreases n,
{
    if n < 10 {
        seq![spec_digit(n)]
    } else {
        spec_dec(n / 10) + seq![spec_digit(n % 10)]
    }
}

/// Decimal representation padded with zeros on the left to two digits.
pub open spec fn spec_pad2(n: int) -> Seq<char> {
    seq![spec_digit(n / 10 % 10), spec_digit(n % 10)]
}

/// Decimal representation padded with zeros on the left to three digits.
pub open spec fn spec_pad3(n: int) -> Seq<char> {
    seq![spec_digit(n / 100 % 10), spec_digit(n / 10 % 10), spec_digit(n % 10)]
}

fn digit_str(d: u64) -> (r: &'static str)
    requires
        d < 10,
    ensures
        r@ =~= seq![spec_digit(d as int)],
{
    proof {
        reveal_strlit("0");
        reveal_strlit("1");
        reveal_strlit("2");
        reveal_strlit("3");
        reveal_strlit("4");
        reveal_strlit("5");
        reveal_strlit("6");
        reveal_strlit("7");
        reveal_strlit("8");
        reveal_strlit("9");
    }
    match d {
        0 => "0",
        1 => "1",
        2 => "2",
        3 => "3",
        4 => "4",
        5 => "5",
        6 => "6",
        7 => "7",
        8 => "8",
        _ => "9",
    }
}

/// Renders `n` in decimal, most significant digit first.
pub fn u64_to_dec(n: u64) -> (r: String)
    ensures
        r@ == spec_dec(n as int),
    decreases n,
{
    if n < 10 {
        String::from_str(digit_str(n))
    } else {
        let mut s = u64_to_dec(n / 10);
        s.append(digit_str(n % 10));
        s
    }
}

/// Renders `n` zero-padded to two decimal digits.
pub fn u64_to_pad2(n: u64) -> (r: String)
    requires
        n < 100,
    ensures
        r@ == spec_pad2(n as int),
{
    let mut s = String::from_str(digit_str(n / 10));
    s.append(digit_str(n % 10));
    proof {
        assert(s@ =~= spec_pad2(n as int));
    }
    s
}

/// Renders `n` zero-padded to three decimal digits.
pub fn u64_to_pad3(n: u64) -> (r: String)
    requires
        n < 1000,
    ensures
        r@ == spec_pad3(n as int),
{
    let mut s = String::from_str(digit_str(n / 100));
    s.append(digit_str(n / 10 % 10));
    s.append(digit_str(n % 10));
    proof {
        assert(s@ =~= spec_pad3(n as int));
    }
    s
}

/// Each non-overlapping occurrence of `//` becomes `/`, scanning left to
/// right and resuming after the replacement, as a substring replacement
/// of `//` by `/` does.
pub open spec fn spec_collapse_double_slash(s: Seq<char>) -> Seq<char>
    decreases s.len(),
{
    if s.len() >= 2 && s[0] == '/' && s[1] == '/' {
        seq!['/'] + spec_collapse_double_slash(s.skip(2))
    } else if s.len() >= 1 {
        seq![s[0]] + spec_collapse_double_slash(s.skip(1))
    } else {
        Seq::empty()
    }
}

/// Replaces each occurrence of `//` by `/`, left to right.
pub fn collapse_double_slash(s: &str) -> (r: String)
    ensures
        r@ == spec_collapse_double_slash(s@),
{
    let len = s.unicode_len();
    let mut out = String::new();
    let mut i: usize = 0;
    proof {
        assert(s@.skip(0) =~= s@);
    }
    while i < len
        invariant
            i <= len,
            len == s@.len(),
            spec_collapse_double_slash(s@) == out@ + spec_collapse_double_slash(
                s@.skip(i as int),
            ),
        decreases len - i,
    {
        let piece = s.substring_char(i, i + 1);
        proof {
            assert(piece@ =~= seq![s@[i as int]]);
        }
        if i + 1 < len && s.get_char(i) == '/' && s.get_char(i + 1) == '/' {
            out.append(piece);
            proof {
                assert(s@.skip(i as int).skip(2) =~= s@.skip(i + 2));
                assert(s@.skip(i as int)[0] == s@[i as int]);
                assert(s@.skip(i as int)[1] == s@[i + 1]);
            }
            i += 2;
        } else {
            out.append(piece);
            proof {
                assert(s@.skip(i as int).skip(1) =~= s@.skip(i + 1));
                assert(s@.skip(i as int)[0] == s@[i as int]);
                if s@.skip(i as int).len() >= 2 && s@.skip(i as int)[0] == '/'
                    && s@.skip(i as int)[1] == '/' {
                    assert(s@[i + 1] == s@.skip(i as int)[1]);
                    assert(false);
                }
            }
            i += 1;
        }
    }
    proof {
        assert(s@.skip(len as int) =~= Seq::<char>::empty());
        assert(out@ + Seq::<char>::empty() =~= out@);
    }
    out
}


/// A sequence without slashes passes through the collapse unchanged.
pub proof fn lemma_collapse_slash_free_id(b: Seq<char>)
    requires
        forall|i: int| 0 <= i < b.len() ==> b[i] != '/',
    ensures
        spec_collapse_double_slash(b) == b,
    decreases b.len(),
{
    if b.len() >= 1 {
        assert(b[0] != '/');
        assert forall|i: int| 0 <= i < b.skip(1).len() implies b.skip(1)[i] != '/' by {
            assert(b.skip(1)[i] == b[i + 1]);
        }
        lemma_collapse_slash_free_id(b.skip(1));
        assert(seq![b[0]] + b.skip(1) =~= b);
    }
}

/// The collapse acts on a prefix independently of a slash-free suffix:
/// appending such a suffix appends it to the collapsed prefix unchanged.
pub proof fn lemma_collapse_slash_free_suffix(a: Seq<char>, b: Seq<char>)
    requires
        forall|i: int| 0 <= i < b.len() ==> b[i] != '/',
    ensures
        spec_collapse_double_slash(a + b) == spec_collapse_double_slash(a) + b,
    decreases a.len(),
{
    let t = a + b;
    if a.len() == 0 {
        assert(t =~= b);
        lemma_collapse_slash_free_id(b);
        assert(spec_collapse_double_slash(a) + b =~= b);
    } else {
        assert(t[0] == a[0]);
        if a.len() >= 2 && a[0] == '/' && a[1] == '/' {
            assert(t.len() >= 2 && t[1] == a[1]);
            assert(t.skip(2) =~= a.skip(2) + b);
            lemma_collapse_slash_free_suffix(a.skip(2), b);
            assert(seq!['/'] + (spec_collapse_double_slash(a.skip(2)) + b) =~= (seq!['/']
                + spec_collapse_double_slash(a.skip(2))) + b);
        } else {
            assert(!(t.len() >= 2 && t[0] == '/' && t[1] == '/')) by {
                if t.len() >= 2 && t[0] == '/' && t[1] == '/' {
                    if a.len() >= 2 {
                        assert(t[1] == a[1]);
                    } else {
                        assert(t[1] == b[0]);
                    }
                }
            }
            assert(t.skip(1) =~= a.skip(1) + b);
            lemma_collapse_slash_free_suffix(a.skip(1), b);
            assert(seq![t[0]] + (spec_collapse_double_slash(a.skip(1)) + b) =~= (seq![a[0]]
                + spec_collapse_double_slash(a.skip(1))) + b);
        }
    }
}

} // verus!
