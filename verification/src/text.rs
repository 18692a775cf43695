//! Character and string helpers shared by the scanner and the cover cache:
//! lexicographic ordering, ASCII case folding, Unicode case folding (through
//! the standard library), and path-component arithmetic (base name, stem,
//! extension).

use vstd::prelude::*;

verus! {

/// The Unicode-lowercased form of a string, as `str::to_lowercase` computes
/// it. The result depends on the characters alone.
pub uninterp spec fn lower_of(s: Seq<char>) -> Seq<char>;

/// Relies on std's `str::to_lowercase`: a deterministic function of the
/// characters of `s` alone.
#[verifier::external_body]
pub(crate) fn lowercase(s: &str) -> (r: String)
    ensures
        r@ == lower_of(s@),
{
    s.to_lowercase()
}

/// Relies on std's `String::push`: appends exactly the one character `c`.
#[verifier::external_body]
pub(crate) fn push_char(s: &mut String, c: char)
    ensures
        final(s)@ == old(s)@.push(c),
{
    s.push(c);
}

/// Character-for-character string equality.
pub fn str_eq_check(a: &str, b: &str) -> (r: bool)
    ensures
        r == (a@ == b@),
{
    let n: usize = a.unicode_len();
    if n != b.unicode_len() {
        return false;
    }
    let mut i: usize = 0;
    while i < n
        invariant
            i <= n,
            n == a@.len(),
            n == b@.len(),
            forall|j: int| 0 <= j < i ==> a@[j] == b@[j],
        decreases n - i,
    {
        if a.get_char(i) != b.get_char(i) {
            return false;
        }
        i = i + 1;
    }
    proof {
        assert(a@ =~= b@);
    }
    true
}

/// Lexicographic order on character sequences, by code point.
pub open spec fn lex_le(a: Seq<char>, b: Seq<char>) -> bool
    decreases a.len(),
{
    if a.len() == 0 {
        true
    } else if b.len() == 0 {
        false
    } else if a[0] != b[0] {
        a[0] < b[0]
    } else {
        lex_le(a.skip(1), b.skip(1))
    }
}

/// `lex_le` is total: of any two strings, one is ordered no later than the
/// other.
pub proof fn lemma_lex_le_total(a: Seq<char>, b: Seq<char>)
    ensures
        lex_le(a, b) || lex_le(b, a),
    decreases a.len(),
{
    if a.len() == 0 {
    } else if b.len() == 0 {
    } else if a[0] != b[0] {
    } else {
        lemma_lex_le_total(a.skip(1), b.skip(1));
    }
}

/// `lex_le` is reflexive.
pub proof fn lemma_lex_le_refl(a: Seq<char>)
    ensures
        lex_le(a, a),
    decreases a.len(),
{
    if a.len() == 0 {
    } else {
        lemma_lex_le_refl(a.skip(1));
    }
}

/// `lex_le` is transitive.
pub proof fn lemma_lex_le_trans(a: Seq<char>, b: Seq<char>, c: Seq<char>)
    requires
        lex_le(a, b),
        lex_le(b, c),
    ensures
        lex_le(a, c),
    decreases a.len(),
{
    if a.len() == 0 {
    } else {
        assert(b.len() > 0);
        assert(c.len() > 0);
        if a[0] == b[0] && b[0] == c[0] {
            lemma_lex_le_trans(a.skip(1), b.skip(1), c.skip(1));
        }
    }
}

/// Decides `lex_le` on string slices.
pub fn str_lex_le(a: &str, b: &str) -> (r: bool)
    ensures
        r == lex_le(a@, b@),
    decreases a@.len(),
{
    let alen: usize = a.unicode_len();
    let blen: usize = b.unicode_len();
    if alen == 0 {
        true
    } else if blen == 0 {
        false
    } else {
        let ca: char = a.get_char(0);
        let cb: char = b.get_char(0);
        if ca != cb {
            ca < cb
        } else {
            let ra: &str = a.substring_char(1, alen);
            let rb: &str = b.substring_char(1, blen);
            proof {
                assert(ra@ =~= a@.skip(1));
                assert(rb@ =~= b@.skip(1));
            }
            str_lex_le(ra, rb)
        }
    }
}

/// ASCII case folding of one character; other characters stay as they are.
pub open spec fn lower_ascii_spec(c: char) -> char {
    match c {
        'A' => 'a',
        'B' => 'b',
        'C' => 'c',
        'D' => 'd',
        'E' => 'e',
        'F' => 'f',
        'G' => 'g',
        'H' => 'h',
        'I' => 'i',
        'J' => 'j',
        'K' => 'k',
        'L' => 'l',
        'M' => 'm',
        'N' => 'n',
        'O' => 'o',
        'P' => 'p',
        'Q' => 'q',
        'R' => 'r',
        'S' => 's',
        'T' => 't',
        'U' => 'u',
        'V' => 'v',
        'W' => 'w',
        'X' => 'x',
        'Y' => 'y',
        'Z' => 'z',
        _ => c,
    }
}

/// ASCII case folding of a whole string.
pub open spec fn lower_ascii_seq(s: Seq<char>) -> Seq<char> {
    s.map_values(|c: char| lower_ascii_spec(c))
}

/// Decides `lower_ascii_spec` on one character.
pub fn lower_ascii_char(c: char) -> (r: char)
    ensures
        r == lower_ascii_spec(c),
{
    match c {
        'A' => 'a',
        'B' => 'b',
        'C' => 'c',
        'D' => 'd',
        'E' => 'e',
        'F' => 'f',
        'G' => 'g',
        'H' => 'h',
        'I' => 'i',
        'J' => 'j',
        'K' => 'k',
        'L' => 'l',
        'M' => 'm',
        'N' => 'n',
        'O' => 'o',
        'P' => 'p',
        'Q' => 'q',
        'R' => 'r',
        'S' => 's',
        'T' => 't',
        'U' => 'u',
        'V' => 'v',
        'W' => 'w',
        'X' => 'x',
        'Y' => 'y',
        'Z' => 'z',
        _ => c,
    }
}

/// ASCII-lowercases a whole string.
pub fn lower_ascii_str(s: &str) -> (r: String)
    ensures
        r@ == lower_ascii_seq(s@),
{
    let n: usize = s.unicode_len();
    let mut out: String = String::new();
    let mut i: usize = 0;
    while i < n
        invariant
            i <= n,
            n == s@.len(),
            out@ == lower_ascii_seq(s@.take(i as int)),
        decreases n - i,
    {
        let c: char = lower_ascii_char(s.get_char(i));
        push_char(&mut out, c);
        proof {
            assert(s@.take(i as int + 1) =~= s@.take(i as int).push(s@[i as int]));
            assert(lower_ascii_seq(s@.take(i as int + 1)) =~= lower_ascii_seq(
                s@.take(i as int),
            ).push(lower_ascii_spec(s@[i as int])));
        }
        i = i + 1;
    }
    proof {
        assert(s@.take(n as int) =~= s@);
    }
    out
}

/// The greatest index at which `c` occurs in `s`, or `-1` if it does not
/// occur.
pub open spec fn last_index_of(s: Seq<char>, c: char) -> int
    decreases s.len(),
{
    if s.len() == 0 {
        -1
    } else if s.last() == c {
        s.len() - 1
    } else {
        last_index_of(s.drop_last(), c)
    }
}

/// `last_index_of` names an occurrence, and the greatest one.
pub proof fn lemma_last_index_of(s: Seq<char>, c: char)
    ensures
        last_index_of(s, c) >= 0 ==> last_index_of(s, c) < s.len() && s[last_index_of(s, c)] == c,
        forall|j: int| last_index_of(s, c) < j < s.len() ==> s[j] != c,
        last_index_of(s, c) >= -1,
    decreases s.len(),
{
    if s.len() == 0 {
    } else if s.last() == c {
    } else {
        lemma_last_index_of(s.drop_last(), c);
        assert forall|j: int| last_index_of(s, c) < j < s.len() implies s[j] != c by {
            if j < s.len() - 1 {
                assert(s.drop_last()[j] == s[j]);
            }
        }
    }
}

/// Finds the greatest index at which `c` occurs in `s`.
pub fn rfind_char(s: &str, c: char) -> (r: Option<usize>)
    ensures
        match r {
            Some(i) => i == last_index_of(s@, c),
            None => last_index_of(s@, c) == -1,
        },
{
    let n: usize = s.unicode_len();
    proof {
        assert(s@.take(n as int) =~= s@);
    }
    let mut i: usize = n;
    while i > 0
        invariant
            i <= n,
            n == s@.len(),
            last_index_of(s@, c) == last_index_of(s@.take(i as int), c),
        decreases i,
    {
        let cur: char = s.get_char(i - 1);
        proof {
            assert(s@.take(i as int).last() == s@[i - 1]);
            assert(s@.take(i as int).drop_last() =~= s@.take(i - 1));
        }
        if cur == c {
            return Some(i - 1);
        }
        i = i - 1;
    }
    proof {
        assert(s@.take(0) =~= Seq::<char>::empty());
    }
    None
}

/// The index at which the base name (the part after the last `/` or `\`)
/// of a path begins.
pub open spec fn base_start(p: Seq<char>) -> int {
    let slash = last_index_of(p, '/');
    let back = last_index_of(p, '\\');
    if slash >= back {
        slash + 1
    } else {
        back + 1
    }
}

/// The index of the dot that separates the base name's stem from its
/// extension, or `-1` when the base name has no extension (no dot, or only
/// a leading dot as in a hidden file).
pub open spec fn ext_dot(p: Seq<char>) -> int {
    let d = last_index_of(p, '.');
    if d >= base_start(p) + 1 {
        d
    } else {
        -1
    }
}

/// The stem of a path's base name: the base name without its extension.
pub open spec fn stem_of(p: Seq<char>) -> Seq<char> {
    if ext_dot(p) >= 0 {
        p.subrange(base_start(p), ext_dot(p))
    } else {
        p.subrange(base_start(p), p.len() as int)
    }
}

/// The extension of a path's base name, without the dot, or `None` when
/// there is none.
pub open spec fn ext_of(p: Seq<char>) -> Option<Seq<char>> {
    if ext_dot(p) >= 0 {
        Some(p.subrange(ext_dot(p) + 1, p.len() as int))
    } else {
        None
    }
}

/// Whether some string in `v` reads as `s`.
pub open spec fn contains_str(v: Seq<String>, s: Seq<char>) -> bool {
    exists|i: int| 0 <= i < v.len() && v[i]@ == s
}

/// Decides `contains_str`.
pub fn contains_string(v: &Vec<String>, s: &String) -> (r: bool)
    ensures
        r == contains_str(v@, s@),
{
    let n: usize = v.len();
    let mut i: usize = 0;
    while i < n
        invariant
            i <= n,
            n == v@.len(),
            forall|j: int| 0 <= j < i ==> v@[j]@ != s@,
        decreases n - i,
    {
        if *s == v[i] {
            return true;
        }
        i = i + 1;
    }
    false
}

/// Where the extension dot of a path's base name sits, if anywhere.
pub enum ExtDot {
    At(usize),
    NoExt,
}

/// Computes the stem of a path's base name.
pub fn path_stem(p: &str) -> (r: String)
    ensures
        r@ == stem_of(p@),
{
    let n: usize = p.unicode_len();
    let b: usize = base_start_exec(p);
    let e: ExtDot = ext_dot_exec(p);
    match e {
        ExtDot::At(d) => {
            let sub: &str = p.substring_char(b, d);
            sub.to_owned()
        },
        ExtDot::NoExt => {
            let sub: &str = p.substring_char(b, n);
            sub.to_owned()
        },
    }
}

/// Computes the lowercased extension of a path's base name, if any.
pub fn path_ext_lower(p: &str) -> (r: Option<String>)
    ensures
        match r {
            Some(e) => ext_of(p@) is Some && e@ == lower_ascii_seq(ext_of(p@)->0),
            None => ext_of(p@) is None,
        },
{
    let n: usize = p.unicode_len();
    let e: ExtDot = ext_dot_exec(p);
    match e {
        ExtDot::At(d) => {
            let sub: &str = p.substring_char(d + 1, n);
            Some(lower_ascii_str(sub))
        },
        ExtDot::NoExt => None,
    }
}

/// Computes `base_start`.
fn base_start_exec(p: &str) -> (b: usize)
    ensures
        b == base_start(p@),
        b <= p@.len(),
{
    let n: usize = p.unicode_len();
    proof {
        lemma_last_index_of(p@, '/');
        lemma_last_index_of(p@, '\\');
    }
    let slash: Option<usize> = rfind_char(p, '/');
    let back: Option<usize> = rfind_char(p, '\\');
    match (slash, back) {
        (Some(i), Some(j)) => if i >= j {
            i + 1
        } else {
            j + 1
        },
        (Some(i), None) => i + 1,
        (None, Some(j)) => j + 1,
        (None, None) => 0,
    }
}

/// Computes `ext_dot`.
fn ext_dot_exec(p: &str) -> (r: ExtDot)
    ensures
        match r {
            ExtDot::At(d) => ext_dot(p@) == d && d < p@.len(),
            ExtDot::NoExt => ext_dot(p@) == -1,
        },
{
    proof {
        lemma_last_index_of(p@, '.');
    }
    let b: usize = base_start_exec(p);
    let dot: Option<usize> = rfind_char(p, '.');
    match dot {
        Some(d) => if d > b {
            ExtDot::At(d)
        } else {
            ExtDot::NoExt
        },
        None => ExtDot::NoExt,
    }
}

} // verus!
