//! Normalization of typed menu entries: surrounding ASCII whitespace is
//! dropped and ASCII letters are folded to lower case. The vocabularies
//! normalized entries are matched against are plain ASCII words, so this is
//! exactly the leniency the menus grant.

use vstd::prelude::*;
use vstd::string::*;

verus! {

/// ASCII whitespace, the kind surrounding a typed entry.
pub open spec fn is_space(c: char) -> bool {
    c == ' ' || c == '\t' || c == '\n' || c == '\r'
}

/// An ASCII capital letter folded to lower case; everything else unchanged.
pub open spec fn fold_char(c: char) -> char {
    if c == 'A' {
        'a'
    } else if c == 'B' {
        'b'
    } else if c == 'C' {
        'c'
    } else if c == 'D' {
        'd'
    } else if c == 'E' {
        'e'
    } else if c == 'F' {
        'f'
    } else if c == 'G' {
        'g'
    } else if c == 'H' {
        'h'
    } else if c == 'I' {
        'i'
    } else if c == 'J' {
        'j'
    } else if c == 'K' {
        'k'
    } else if c == 'L' {
        'l'
    } else if c == 'M' {
        'm'
    } else if c == 'N' {
        'n'
    } else if c == 'O' {
        'o'
    } else if c == 'P' {
        'p'
    } else if c == 'Q' {
        'q'
    } else if c == 'R' {
        'r'
    } else if c == 'S' {
        's'
    } else if c == 'T' {
        't'
    } else if c == 'U' {
        'u'
    } else if c == 'V' {
        'v'
    } else if c == 'W' {
        'w'
    } else if c == 'X' {
        'x'
    } else if c == 'Y' {
        'y'
    } else if c == 'Z' {
        'z'
    } else {
        c
    }
}

/// The entry with its surrounding whitespace dropped.
pub open spec fn trim_spec(s: Seq<char>) -> Seq<char>
    decreases s.len(),
{
    if s.len() == 0 {
        s
    } else if is_space(s[0]) {
        trim_spec(s.drop_first())
    } else if is_space(s.last()) {
        trim_spec(s.drop_last())
    } else {
        s
    }
}

/// The normal form of a typed entry: trimmed, then folded to lower case.
pub open spec fn normalize_spec(s: Seq<char>) -> Seq<char> {
    trim_spec(s).map_values(|c: char| fold_char(c))
}

fn is_space_char(c: char) -> (r: bool)
    ensures
        r == is_space(c),
{
    c == ' ' || c == '\t' || c == '\n' || c == '\r'
}

fn fold_char_of(c: char) -> (r: char)
    ensures
        r == fold_char(c),
{
    match c {
        'A' => 'a',
        'B' => 'b',
        'C' => 'c',
        'D' => 'd',
        'E' => 'e',
        'F' => 'f',
        'G' => 'g',
        'H' => 'h',
        'I' => 'i',
        'J' => 'j',
        'K' => 'k',
        'L' => 'l',
        'M' => 'm',
        'N' => 'n',
        'O' => 'o',
        'P' => 'p',
        'Q' => 'q',
        'R' => 'r',
        'S' => 's',
        'T' => 't',
        'U' => 'u',
        'V' => 'v',
        'W' => 'w',
        'X' => 'x',
        'Y' => 'y',
        'Z' => 'z',
        _ => c,
    }
}

/// Dropping all-whitespace margins `lo` and `hi` of `s` is exactly trimming.
proof fn lemma_trim_margins(s: Seq<char>, lo: int, hi: int)
    requires
        0 <= lo <= hi <= s.len(),
        forall|i: int| 0 <= i < lo ==> is_space(#[trigger] s[i]),
        forall|i: int| hi <= i < s.len() ==> is_space(#[trigger] s[i]),
        lo < hi ==> !is_space(s[lo]) && !is_space(s[hi - 1]),
        lo == hi ==> lo == s.len(),
    ensures
        trim_spec(s) =~= s.subrange(lo, hi),
    decreases s.len(),
{
    if lo == hi {
        if s.len() > 0 {
            assert(is_space(s[0]));
            lemma_trim_margins(s.drop_first(), lo - 1, hi - 1);
            assert(s.drop_first().subrange(lo - 1, hi - 1) =~= s.subrange(lo, hi));
        }
    } else {
        if lo > 0 {
            assert(is_space(s[0]));
            lemma_trim_margins(s.drop_first(), lo - 1, hi - 1);
            assert(s.drop_first().subrange(lo - 1, hi - 1) =~= s.subrange(lo, hi));
        } else if hi < s.len() {
            assert(!is_space(s[0]));
            assert(is_space(s.last()));
            lemma_trim_margins(s.drop_last(), lo, hi);
            assert(s.drop_last().subrange(lo, hi) =~= s.subrange(lo, hi));
        } else {
            assert(!is_space(s[0]) && !is_space(s.last()));
            assert(s.subrange(0, s.len() as int) =~= s);
        }
    }
}

/// The normal form of a typed entry, as characters.
pub fn normalize(s: &str) -> (r: Vec<char>)
    ensures
        r@ == normalize_spec(s@),
{
    let n = s.unicode_len();
    let mut chars: Vec<char> = Vec::new();
    let mut i: usize = 0;
    while i < n
        invariant
            i <= n == s@.len(),
            chars@ =~= s@.subrange(0, i as int),
        decreases n - i,
    {
        chars.push(s.get_char(i));
        proof {
            assert(chars@ =~= s@.subrange(0, i as int + 1));
        }
        i = i + 1;
    }
    proof {
        assert(chars@ =~= s@);
    }

    let mut lo: usize = 0;
    while lo < n && is_space_char(chars[lo])
        invariant
            lo <= n == s@.len(),
            chars@ =~= s@,
            forall|j: int| 0 <= j < lo ==> is_space(#[trigger] s@[j]),
        decreases n - lo,
    {
        lo = lo + 1;
    }
    let mut hi: usize = n;
    if lo < n {
        while hi > lo + 1 && is_space_char(chars[hi - 1])
            invariant
                lo < hi <= n == s@.len(),
                chars@ =~= s@,
                forall|j: int| hi <= j < s@.len() ==> is_space(#[trigger] s@[j]),
            decreases hi,
        {
            hi = hi - 1;
        }
    } else {
        hi = lo;
    }
    proof {
        if lo < hi {
            assert(!is_space(s@[lo as int]));
            assert(!is_space(s@[hi - 1 as int]));
        }
        lemma_trim_margins(s@, lo as int, hi as int);
    }

    let mut out: Vec<char> = Vec::new();
    let mut k: usize = lo;
    while k < hi
        invariant
            lo <= k <= hi <= s@.len(),
            chars@ =~= s@,
            out@ =~= s@.subrange(lo as int, k as int).map_values(|c: char| fold_char(c)),
        decreases hi - k,
    {
        out.push(fold_char_of(chars[k]));
        proof {
            assert(out@ =~= s@.subrange(lo as int, k as int + 1).map_values(
                |c: char| fold_char(c),
            ));
        }
        k = k + 1;
    }
    proof {
        assert(out@ =~= normalize_spec(s@));
    }
    out
}

/// Whether the characters `v` spell exactly the word `w`.
pub fn chars_match(v: &Vec<char>, w: &str) -> (r: bool)
    ensures
        r == (v@ == w@),
{
    let n = w.unicode_len();
    if v.len() != n {
        proof {
            assert(v@ != w@);
        }
        return false;
    }
    let mut i: usize = 0;
    while i < n
        invariant
            i <= n == w@.len() == v@.len(),
            forall|j: int| 0 <= j < i ==> v@[j] == w@[j],
        decreases n - i,
    {
        if v[i] != w.get_char(i) {
            return false;
        }
        i = i + 1;
    }
    proof {
        assert(v@ =~= w@);
    }
    true
}

} // verus!
