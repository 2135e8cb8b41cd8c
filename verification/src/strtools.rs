//! Small verified string helpers: appending single characters, decimal
//! rendering, splitting and joining, and ASCII case folding.

use vstd::prelude::*;
use vstd::string::*;

verus! {

/// Relies on `String::push`: it appends exactly the one character.
#[verifier::external_body]
pub fn push_char(s: &mut String, c: char)
    ensures
        final(s)@ == old(s)@ + seq![c],
{
    s.push(c);
}

/// The digit character for a value below ten.
pub open spec fn digit_char(d: int) -> char {
    if d == 0 {
        '0'
    } else if d == 1 {
        '1'
    } else if d == 2 {
        '2'
    } else if d == 3 {
        '3'
    } else if d == 4 {
        '4'
    } else if d == 5 {
        '5'
    } else if d == 6 {
        '6'
    } else if d == 7 {
        '7'
    } else if d == 8 {
        '8'
    } else {
        '9'
    }
}

/// The decimal rendering of a non-negative integer, most significant digit
/// first, without leading zeroes (except for zero itself).
pub open spec fn dec_str(n: int) -> Seq<char>
    decreases n,
{
    if n < 10 {
        seq![digit_char(n)]
    } else {
        dec_str(n / 10) + seq![digit_char(n % 10)]
    }
}

/// Appends the decimal rendering of `n`.
pub fn push_decimal(s: &mut String, n: u64)
    ensures
        final(s)@ == old(s)@ + dec_str(n as int),
    decreases n,
{
    if n >= 10 {
        push_decimal(s, n / 10);
        let d = digit_char_exec(n % 10);
        push_char(s, d);
        proof {
            assert(s@ =~= old(s)@ + dec_str(n as int));
        }
    } else {
        let d = digit_char_exec(n);
        push_char(s, d);
    }
}

/// ASCII lower-casing of one character; anything but `A..Z` is untouched.
pub open spec fn lower_char(c: char) -> char {
    if c == 'A' {
        'a'
    } else if c == 'B' {
        'b'
    } else if c == 'C' {
        'c'
    } else if c == 'D' {
        'd'
    } else if c == 'E' {
        'e'
    } else if c == 'F' {
        'f'
    } else if c == 'G' {
        'g'
    } else if c == 'H' {
        'h'
    } else if c == 'I' {
        'i'
    } else if c == 'J' {
        'j'
    } else if c == 'K' {
        'k'
    } else if c == 'L' {
        'l'
    } else if c == 'M' {
        'm'
    } else if c == 'N' {
        'n'
    } else if c == 'O' {
        'o'
    } else if c == 'P' {
        'p'
    } else if c == 'Q' {
        'q'
    } else if c == 'R' {
        'r'
    } else if c == 'S' {
        's'
    } else if c == 'T' {
        't'
    } else if c == 'U' {
        'u'
    } else if c == 'V' {
        'v'
    } else if c == 'W' {
        'w'
    } else if c == 'X' {
        'x'
    } else if c == 'Y' {
        'y'
    } else if c == 'Z' {
        'z'
    } else {
        c
    }
}

/// A string lower-cased character by character.
pub open spec fn lower_seq(s: Seq<char>) -> Seq<char> {
    s.map_values(|c: char| lower_char(c))
}

/// Exec ASCII lower-casing of one character.
pub fn lower_char_exec(c: char) -> (r: char)
    ensures
        r == lower_char(c),
{
    match c {
        'A' => 'a',
        'B' => 'b',
        'C' => 'c',
        'D' => 'd',
        'E' => 'e',
        'F' => 'f',
        'G' => 'g',
        'H' => 'h',
        'I' => 'i',
        'J' => 'j',
        'K' => 'k',
        'L' => 'l',
        'M' => 'm',
        'N' => 'n',
        'O' => 'o',
        'P' => 'p',
        'Q' => 'q',
        'R' => 'r',
        'S' => 's',
        'T' => 't',
        'U' => 'u',
        'V' => 'v',
        'W' => 'w',
        'X' => 'x',
        'Y' => 'y',
        'Z' => 'z',
        _ => c,
    }
}

/// Exact string equality.
pub fn str_eq(a: &str, b: &str) -> (r: bool)
    ensures
        r == (a@ == b@),
{
    let la = a.unicode_len();
    let lb = b.unicode_len();
    if la != lb {
        proof {
            assert(a@ != b@);
        }
        return false;
    }
    let mut i: usize = 0;
    while i < la
        invariant
            la == a@.len(),
            la == b@.len(),
            i <= la,
            forall|k: int| 0 <= k < i ==> a@[k] == b@[k],
        decreases la - i,
    {
        if a.get_char(i) != b.get_char(i) {
            proof {
                assert(a@ != b@);
            }
            return false;
        }
        i = i + 1;
    }
    proof {
        assert(a@ =~= b@);
    }
    true
}

/// Does `s`, lower-cased, equal `lit`?
pub fn eq_lower(s: &str, lit: &str) -> (r: bool)
    ensures
        r == (lower_seq(s@) == lit@),
{
    let la = s.unicode_len();
    let lb = lit.unicode_len();
    if la != lb {
        proof {
            assert(lower_seq(s@).len() == s@.len());
            assert(lower_seq(s@) != lit@);
        }
        return false;
    }
    let mut i: usize = 0;
    while i < la
        invariant
            la == s@.len(),
            la == lit@.len(),
            i <= la,
            forall|k: int| 0 <= k < i ==> lower_char(s@[k]) == lit@[k],
        decreases la - i,
    {
        let c = lower_char_exec(s.get_char(i));
        if c != lit.get_char(i) {
            proof {
                assert(lower_seq(s@)[i as int] == lower_char(s@[i as int]));
                assert(lower_seq(s@) != lit@);
            }
            return false;
        }
        i = i + 1;
    }
    proof {
        assert forall|k: int| 0 <= k < la implies lower_seq(s@)[k] == lit@[k] by {
            assert(lower_seq(s@)[k] == lower_char(s@[k]));
        }
        assert(lower_seq(s@) =~= lit@);
    }
    true
}

/// The parts of `s` between occurrences of `sep`, in order; splitting the
/// empty string gives one empty part, like `str::split`.
pub open spec fn spec_split(s: Seq<char>, sep: char) -> Seq<Seq<char>>
    decreases s.len(),
{
    if s.len() == 0 {
        seq![Seq::<char>::empty()]
    } else if s[0] == sep {
        seq![Seq::<char>::empty()] + spec_split(s.skip(1), sep)
    } else {
        let r = spec_split(s.skip(1), sep);
        seq![seq![s[0]] + r[0]] + r.skip(1)
    }
}

/// A split has at least one part.
pub proof fn lemma_split_len(s: Seq<char>, sep: char)
    ensures
        spec_split(s, sep).len() >= 1,
    decreases s.len(),
{
    if s.len() > 0 && s[0] != sep {
        lemma_split_len(s.skip(1), sep);
    }
}

/// `r` with its first part extended at the front by `p`.
pub open spec fn prepend_first(p: Seq<char>, r: Seq<Seq<char>>) -> Seq<Seq<char>>
    recommends
        r.len() >= 1,
{
    seq![p + r[0]] + r.skip(1)
}

/// Splits a string at a separator character.
pub fn split_str(s: &str, sep: char) -> (r: Vec<String>)
    ensures
        r@.map_values(|p: String| p@) == spec_split(s@, sep),
        r@.len() >= 1,
{
    let len = s.unicode_len();
    let mut parts: Vec<String> = Vec::new();
    let mut cur = String::new();
    let mut j: usize = 0;
    proof {
        lemma_split_len(s@, sep);
        assert(s@.skip(0) =~= s@);
        assert(parts@.map_values(|p: String| p@) + prepend_first(cur@, spec_split(s@, sep))
            =~~= spec_split(s@, sep));
    }
    while j < len
        invariant
            len == s@.len(),
            j <= len,
            spec_split(s@, sep) == parts@.map_values(|p: String| p@) + prepend_first(
                cur@,
                spec_split(s@.skip(j as int), sep),
            ),
        decreases len - j,
    {
        let ghost parts_before = parts@.map_values(|p: String| p@);
        let ghost cur_before = cur@;
        let ghost tail = spec_split(s@.skip(j + 1), sep);
        proof {
            lemma_split_len(s@.skip(j as int), sep);
            lemma_split_len(s@.skip(j + 1), sep);
            assert(s@.skip(j as int).skip(1) =~= s@.skip(j + 1));
            assert(s@.skip(j as int)[0] == s@[j as int]);
            assert(s@.skip(j as int).len() > 0);
        }
        let c = s.get_char(j);
        if c == sep {
            parts.push(cur);
            cur = String::new();
            proof {
                assert(spec_split(s@.skip(j as int), sep) == seq![Seq::<char>::empty()] + tail);
                assert(prepend_first(cur_before, seq![Seq::<char>::empty()] + tail) =~~= seq![
                    cur_before,
                ] + tail);
                assert(parts@.map_values(|p: String| p@) =~= parts_before + seq![cur_before]);
                assert(prepend_first(cur@, tail) =~~= tail);
                assert(parts@.map_values(|p: String| p@) + prepend_first(cur@, tail)
                    =~~= parts_before + (seq![cur_before] + tail));
            }
        } else {
            push_char(&mut cur, c);
            proof {
                assert(spec_split(s@.skip(j as int), sep) == prepend_first(
                    seq![s@[j as int]],
                    tail,
                ));
                assert(prepend_first(cur_before, prepend_first(seq![s@[j as int]], tail))
                    =~~= prepend_first(cur_before + seq![s@[j as int]], tail));
                assert(cur@ == cur_before + seq![s@[j as int]]);
            }
        }
        j = j + 1;
    }
    let ghost parts_before = parts@.map_values(|p: String| p@);
    let ghost cur_before = cur@;
    parts.push(cur);
    proof {
        assert(s@.skip(len as int) =~= Seq::<char>::empty());
        assert(spec_split(Seq::<char>::empty(), sep) == seq![Seq::<char>::empty()]);
        assert(prepend_first(cur_before, seq![Seq::<char>::empty()]) =~~= seq![cur_before]);
        assert(parts@.map_values(|p: String| p@) =~= parts_before + seq![cur_before]);
        assert(parts@.map_values(|p: String| p@) =~~= spec_split(s@, sep));
    }
    parts
}

/// The parts joined with `sep` between them.
pub open spec fn spec_join(parts: Seq<Seq<char>>, sep: char) -> Seq<char>
    decreases parts.len(),
{
    if parts.len() == 0 {
        Seq::<char>::empty()
    } else if parts.len() == 1 {
        parts[0]
    } else {
        parts[0] + seq![sep] + spec_join(parts.skip(1), sep)
    }
}

/// Joining one more part appends a separator and the part.
pub proof fn lemma_join_push(parts: Seq<Seq<char>>, x: Seq<char>, sep: char)
    requires
        parts.len() >= 1,
    ensures
        spec_join(parts.push(x), sep) == spec_join(parts, sep) + seq![sep] + x,
    decreases parts.len(),
{
    if parts.len() == 1 {
        assert(parts.push(x)[0] == parts[0]);
        assert(parts.push(x).skip(1) =~~= seq![x]);
        assert(spec_join(seq![x], sep) == x);
    } else {
        assert(parts.push(x).skip(1) =~~= parts.skip(1).push(x));
        lemma_join_push(parts.skip(1), x, sep);
        assert(spec_join(parts.push(x), sep) == parts[0] + seq![sep] + (spec_join(
            parts.skip(1),
            sep,
        ) + seq![sep] + x));
        assert(parts[0] + seq![sep] + (spec_join(parts.skip(1), sep) + seq![sep] + x) =~= (
        parts[0] + seq![sep] + spec_join(parts.skip(1), sep)) + seq![sep] + x);
    }
}

/// Joins strings with a separator character.
pub fn join_with(parts: &Vec<String>, sep: char) -> (r: String)
    ensures
        r@ == spec_join(parts@.map_values(|p: String| p@), sep),
{
    let mut s = String::new();
    let mut i: usize = 0;
    proof {
        assert(parts@.map_values(|p: String| p@).take(0) =~~= Seq::<Seq<char>>::empty());
    }
    while i < parts.len()
        invariant
            i <= parts@.len(),
            s@ == spec_join(parts@.map_values(|p: String| p@).take(i as int), sep),
        decreases parts@.len() - i,
    {
        let ghost views = parts@.map_values(|p: String| p@);
        if i > 0 {
            push_char(&mut s, sep);
            s.append(parts[i].as_str());
            proof {
                assert(views.take(i + 1) =~~= views.take(i as int).push(views[i as int]));
                lemma_join_push(views.take(i as int), views[i as int], sep);
            }
        } else {
            s.append(parts[i].as_str());
            proof {
                assert(views.take(1) =~~= seq![views[0]]);
            }
        }
        i = i + 1;
    }
    proof {
        assert(parts@.map_values(|p: String| p@).take(parts@.len() as int) =~~= parts@.map_values(
            |p: String| p@,
        ));
    }
    s
}

/// `s` with every occurrence of `pat` replaced by `rep`, scanning left to
/// right without revisiting replaced text, like `str::replace`.
pub open spec fn spec_replace(s: Seq<char>, pat: Seq<char>, rep: Seq<char>) -> Seq<char>
    recommends
        pat.len() >= 1,
    decreases s.len(),
{
    if s.len() < pat.len() || pat.len() == 0 {
        s
    } else if s.take(pat.len() as int) == pat {
        rep + spec_replace(s.skip(pat.len() as int), pat, rep)
    } else {
        seq![s[0]] + spec_replace(s.skip(1), pat, rep)
    }
}

/// Replaces every occurrence of `pat` in `s` by `rep`.
pub fn replace_all(s: &str, pat: &str, rep: &str) -> (r: String)
    requires
        pat@.len() >= 1,
    ensures
        r@ == spec_replace(s@, pat@, rep@),
{
    let len = s.unicode_len();
    let plen = pat.unicode_len();
    let mut out = String::new();
    let mut i: usize = 0;
    proof {
        assert(s@.skip(0) =~= s@);
    }
    while i < len
        invariant
            len == s@.len(),
            plen == pat@.len(),
            plen >= 1,
            i <= len,
            spec_replace(s@, pat@, rep@) == out@ + spec_replace(s@.skip(i as int), pat@, rep@),
        decreases len - i,
    {
        let ghost suffix = s@.skip(i as int);
        let matches_here: bool = if len - i >= plen {
            let mut k: usize = 0;
            let mut m = true;
            while k < plen
                invariant
                    len == s@.len(),
                    plen == pat@.len(),
                    i + plen <= len,
                    k <= plen,
                    m == (forall|t: int| 0 <= t < k ==> s@[i + t] == pat@[t]),
                decreases plen - k,
            {
                if s.get_char(i + k) != pat.get_char(k) {
                    m = false;
                    proof {
                        assert(s@[i + k] != pat@[k as int]);
                    }
                    k = plen;
                } else {
                    proof {
                        if m {
                            assert(forall|t: int| 0 <= t < k + 1 ==> s@[i + t] == pat@[t]);
                        }
                    }
                    k = k + 1;
                }
            }
            proof {
                if m {
                    assert forall|t: int| 0 <= t < plen implies suffix.take(plen as int)[t]
                        == pat@[t] by {
                        assert(s@[i + t] == pat@[t]);
                    }
                    assert(suffix.take(plen as int) =~= pat@);
                } else {
                    let t = choose|t: int| 0 <= t < plen && s@[i + t] != pat@[t];
                    assert(suffix.take(plen as int)[t] == s@[i + t]);
                    assert(suffix.take(plen as int) != pat@);
                }
            }
            m
        } else {
            proof {
                assert(suffix.len() < pat@.len());
            }
            false
        };
        if matches_here {
            out.append(rep);
            proof {
                assert(s@.skip(i as int).skip(plen as int) =~= s@.skip(i + plen));
            }
            i = i + plen;
        } else {
            proof {
                if suffix.len() >= pat@.len() {
                    assert(suffix.take(plen as int) != pat@);
                }
                assert(s@.skip(i as int).skip(1) =~= s@.skip(i + 1));
                assert(suffix[0] == s@[i as int]);
            }
            let c = s.get_char(i);
            push_char(&mut out, c);
            i = i + 1;
        }
    }
    proof {
        assert(s@.skip(len as int) =~= Seq::<char>::empty());
        assert(spec_replace(Seq::<char>::empty(), pat@, rep@) =~= Seq::<char>::empty());
    }
    out
}

/// The character of one decimal digit.
pub fn digit_char_exec(d: u64) -> (r: char)
    requires
        d < 10,
    ensures
        r == digit_char(d as int),
{
    if d == 0 {
        '0'
    } else if d == 1 {
        '1'
    } else if d == 2 {
        '2'
    } else if d == 3 {
        '3'
    } else if d == 4 {
        '4'
    } else if d == 5 {
        '5'
    } else if d == 6 {
        '6'
    } else if d == 7 {
        '7'
    } else if d == 8 {
        '8'
    } else {
        '9'
    }
}

} // verus!
