//! Which directive strings the environment filter's parser reads without panicking.
//!
//! `parse_lossy` of `tracing_subscriber` splits the directives at commas and hands
//! each piece to its directive parser. That parser walks the piece with whitespace
//! trimmed from both ends, noting the byte positions of the characters it meets in the
//! trimmed text, but cuts the untrimmed piece at those positions. Where a piece begins
//! with whitespace, such a position can fall inside a character of the untrimmed piece,
//! and the cut panics. The spec functions here follow the parser's states over the
//! trimmed piece and hold exactly where every cut it makes falls on a character
//! boundary of the untrimmed piece.
//!
//! One step is modelled from above: where a field matcher `{..}` closes, the parser
//! goes on only if the field's value, read as a regular expression, compiles; the model
//! goes on in every case. A piece is therefore refused also where a cut that the parser
//! would make only after a field whose pattern compiles falls inside a character, and
//! the pattern does not compile.

use vstd::prelude::*;

verus! {

/// Whether `c` has the Unicode `White_Space` property, as `char::is_whitespace` tests
/// (and as `str::trim` trims).
pub open spec fn spec_is_whitespace(c: char) -> bool {
    let v = c as u32;
    ||| 0x9 <= v <= 0xD
    ||| v == 0x20
    ||| v == 0x85
    ||| v == 0xA0
    ||| v == 0x1680
    ||| 0x2000 <= v <= 0x200A
    ||| v == 0x2028
    ||| v == 0x2029
    ||| v == 0x202F
    ||| v == 0x205F
    ||| v == 0x3000
}

/// A name for what `char::is_alphanumeric` returns: whether `c` is alphabetic or numeric
/// in Unicode.
pub uninterp spec fn char_is_alphanumeric(c: char) -> bool;

/// The number of bytes of `c` in UTF-8.
pub open spec fn utf8_len(c: char) -> int {
    let v = c as u32;
    if v < 0x80 {
        1
    } else if v < 0x800 {
        2
    } else if v < 0x10000 {
        3
    } else {
        4
    }
}

/// The byte position, in UTF-8, at which character `k` of `s` begins.
pub open spec fn byte_offset(s: Seq<char>, k: int) -> int
    decreases k,
{
    if k <= 0 {
        0
    } else {
        byte_offset(s, k - 1) + utf8_len(s[k - 1])
    }
}

/// Whether byte position `x` of `s` in UTF-8 is a character boundary (the end counts).
pub open spec fn is_boundary(s: Seq<char>, x: int) -> bool {
    exists|k: int| 0 <= k <= s.len() && byte_offset(s, k) == x
}

/// The states of the directive parser; `Failed` stands for a parse that returned an
/// error, after which nothing more is cut. The numbers are byte positions in the
/// trimmed piece.
#[derive(Clone, Copy, PartialEq, Eq, Structural)]
pub enum DirectiveState {
    Start,
    LevelOrTarget(u128),
    Span(u128),
    Field(u128),
    Fields,
    Target,
    Level(u128),
    Failed,
}

/// One step of the parser on character `c` at byte position `i` of the trimmed piece:
/// the next state, and whether every cut of the untrimmed piece `from` made in this step
/// falls on a character boundary.
pub open spec fn step(st: DirectiveState, c: char, i: u128, from: Seq<char>) -> (
    DirectiveState,
    bool,
) {
    let cut = is_boundary(from, i as int);
    match st {
        DirectiveState::Start => {
            if c == '[' {
                (DirectiveState::Span((i + 1) as u128), true)
            } else if c != '-' && c != ':' && c != '_' && !char_is_alphanumeric(c) {
                (DirectiveState::Failed, true)
            } else {
                (DirectiveState::LevelOrTarget(i), true)
            }
        },
        DirectiveState::LevelOrTarget(start) => {
            if c == '=' {
                (DirectiveState::Level((i + 1) as u128), is_boundary(from, start as int) && cut)
            } else if c == '[' {
                (DirectiveState::Span((i + 1) as u128), is_boundary(from, start as int) && cut)
            } else {
                (st, true)
            }
        },
        DirectiveState::Target => {
            if c == '=' {
                (DirectiveState::Level((i + 1) as u128), true)
            } else {
                (DirectiveState::Failed, true)
            }
        },
        DirectiveState::Span(ss) => {
            if c == ']' {
                (DirectiveState::Target, is_boundary(from, ss as int) && cut)
            } else if c == '{' {
                (DirectiveState::Field((i + 1) as u128), is_boundary(from, ss as int) && cut)
            } else {
                (st, true)
            }
        },
        DirectiveState::Field(fs) => {
            if c == '}' {
                (
                    if fs == i {
                        DirectiveState::Failed
                    } else {
                        DirectiveState::Fields
                    },
                    is_boundary(from, fs as int) && cut,
                )
            } else {
                (st, true)
            }
        },
        DirectiveState::Fields => {
            if c == ']' {
                (DirectiveState::Target, true)
            } else {
                (DirectiveState::Failed, true)
            }
        },
        DirectiveState::Level(_) => (st, true),
        DirectiveState::Failed => (st, true),
    }
}

/// The parser's state after the first `k` characters of the trimmed piece `t`, and
/// whether every cut of `from` so far fell on a character boundary.
pub open spec fn scan(from: Seq<char>, t: Seq<char>, k: int) -> (DirectiveState, bool)
    decreases k,
{
    if k <= 0 {
        (DirectiveState::Start, true)
    } else {
        let prev = scan(from, t, k - 1);
        let next = step(prev.0, t[k - 1], byte_offset(t, k - 1) as u128, from);
        (next.0, prev.1 && next.1)
    }
}

/// Whether the cut that the parser makes at the end, in state `st`, falls on a
/// character boundary of `from`.
pub open spec fn end_safe(st: DirectiveState, from: Seq<char>) -> bool {
    match st {
        DirectiveState::LevelOrTarget(start) => is_boundary(from, start as int),
        DirectiveState::Level(ls) => is_boundary(from, ls as int),
        _ => true,
    }
}

/// `from[a..b]` is `from` with the whitespace at both ends trimmed.
pub open spec fn trim_bounds(from: Seq<char>, a: int, b: int) -> bool {
    &&& 0 <= a <= b <= from.len()
    &&& forall|k: int| 0 <= k < a ==> spec_is_whitespace(#[trigger] from[k])
    &&& forall|k: int| b <= k < from.len() ==> spec_is_whitespace(#[trigger] from[k])
    &&& a < b ==> !spec_is_whitespace(from[a]) && !spec_is_whitespace(from[b - 1])
}

/// Every cut that the parser makes in the piece `from`, walking its trimmed text `t`,
/// falls on a character boundary of `from`.
pub open spec fn trimmed_safe(from: Seq<char>, t: Seq<char>) -> bool {
    let r = scan(from, t, t.len() as int);
    r.1 && end_safe(r.0, from)
}

/// The parser reads the piece `from` (which holds no comma) without a cut inside a
/// character.
pub open spec fn directive_parses_safely(from: Seq<char>) -> bool {
    forall|a: int, b: int| trim_bounds(from, a, b) ==> trimmed_safe(from, from.subrange(a, b))
}

/// Whether a piece begins at position `i` of `dirs`: at the start or after a comma.
pub open spec fn starts_directive(dirs: Seq<char>, i: int) -> bool {
    i == 0 || (0 < i <= dirs.len() && dirs[i - 1] == ',')
}

/// `dirs[i..e]` is one of the pieces between the commas of `dirs`.
pub open spec fn is_piece(dirs: Seq<char>, i: int, e: int) -> bool {
    &&& 0 <= i <= e <= dirs.len()
    &&& starts_directive(dirs, i)
    &&& (e == dirs.len() || dirs[e] == ',')
    &&& forall|k: int| i <= k < e ==> dirs[k] != ','
}

/// The parser reads every piece of the comma-separated `dirs` without panicking.
pub open spec fn directives_parse_safely(dirs: Seq<char>) -> bool {
    forall|i: int, e: int| is_piece(dirs, i, e) ==> directive_parses_safely(dirs.subrange(i, e))
}

/// Each character takes one to four bytes in UTF-8.
proof fn lemma_offset_bounds(s: Seq<char>, k: int)
    requires
        0 <= k <= s.len(),
    ensures
        k <= byte_offset(s, k) <= 4 * k,
    decreases k,
{
    if k > 0 {
        lemma_offset_bounds(s, k - 1);
    }
}

/// Two sequences that agree on their first `k` characters agree on where those begin.
proof fn lemma_offset_prefix(s: Seq<char>, t: Seq<char>, k: int)
    requires
        0 <= k <= t.len(),
        k <= s.len(),
        forall|m: int| 0 <= m < k ==> t[m] == s[m],
    ensures
        byte_offset(t, k) == byte_offset(s, k),
    decreases k,
{
    if k > 0 {
        lemma_offset_prefix(s, t, k - 1);
    }
}

/// In an ASCII sequence, character `k` begins at byte `k`.
proof fn lemma_offset_ascii(s: Seq<char>, k: int)
    requires
        0 <= k <= s.len(),
        forall|m: int| 0 <= m < s.len() ==> (s[m] as u32) < 128,
    ensures
        byte_offset(s, k) == k,
    decreases k,
{
    if k > 0 {
        lemma_offset_ascii(s, k - 1);
    }
}

/// Every byte position that the state holds is a character boundary of `from`.
spec fn positions_are_boundaries(st: DirectiveState, from: Seq<char>) -> bool {
    match st {
        DirectiveState::LevelOrTarget(x) => is_boundary(from, x as int),
        DirectiveState::Span(x) => is_boundary(from, x as int),
        DirectiveState::Field(x) => is_boundary(from, x as int),
        DirectiveState::Level(x) => is_boundary(from, x as int),
        _ => true,
    }
}

/// Where every position at which a character of `t` begins (and its end) is a
/// character boundary of `from`, no cut of the scan falls inside a character.
proof fn lemma_scan_safe(from: Seq<char>, t: Seq<char>, k: int)
    requires
        0 <= k <= t.len(),
        t.len() <= usize::MAX,
        forall|m: int| 0 <= m <= t.len() ==> is_boundary(from, #[trigger] byte_offset(t, m)),
    ensures
        scan(from, t, k).1,
        positions_are_boundaries(scan(from, t, k).0, from),
    decreases k,
{
    if k > 0 {
        lemma_scan_safe(from, t, k - 1);
        lemma_offset_bounds(t, k - 1);
        lemma_offset_bounds(t, k);
        let i = byte_offset(t, k - 1);
        assert(is_boundary(from, byte_offset(t, k - 1)));
        assert(is_boundary(from, byte_offset(t, k)));
        assert(byte_offset(t, k) == i + utf8_len(t[k - 1]));
        assert((i as u128) as int == i);
    }
}

/// Under the same condition, the parser reads the trimmed text `t` of `from` safely.
proof fn lemma_trimmed_safe(from: Seq<char>, t: Seq<char>)
    requires
        t.len() <= usize::MAX,
        forall|m: int| 0 <= m <= t.len() ==> is_boundary(from, #[trigger] byte_offset(t, m)),
    ensures
        trimmed_safe(from, t),
{
    lemma_scan_safe(from, t, t.len() as int);
}

/// A directive string that is ASCII throughout is read without a cut inside a character:
/// in ASCII every byte position is a character boundary.
pub proof fn lemma_ascii_directives_parse_safely(dirs: Seq<char>)
    requires
        dirs.len() <= usize::MAX,
        forall|k: int| 0 <= k < dirs.len() ==> (dirs[k] as u32) < 128,
    ensures
        directives_parse_safely(dirs),
{
    assert forall|i: int, e: int| is_piece(dirs, i, e) implies directive_parses_safely(
        dirs.subrange(i, e),
    ) by {
        let from = dirs.subrange(i, e);
        assert forall|a: int, b: int| trim_bounds(from, a, b) implies trimmed_safe(
            from,
            from.subrange(a, b),
        ) by {
            let t = from.subrange(a, b);
            assert forall|m: int| 0 <= m <= t.len() implies is_boundary(
                from,
                #[trigger] byte_offset(t, m),
            ) by {
                lemma_offset_ascii(t, m);
                lemma_offset_ascii(from, m);
                assert(0 <= m <= from.len() && byte_offset(from, m) == byte_offset(t, m));
            }
            lemma_trimmed_safe(from, t);
        }
    }
}

/// A directive string none of whose comma-separated pieces begins with whitespace is
/// read without a cut inside a character: the trimmed text then begins where the piece
/// begins, so every position the parser cuts at is a character boundary of the piece.
pub proof fn lemma_unpadded_directives_parse_safely(dirs: Seq<char>)
    requires
        dirs.len() <= usize::MAX,
        forall|i: int|
            0 <= i < dirs.len() && starts_directive(dirs, i) ==> !spec_is_whitespace(
                #[trigger] dirs[i],
            ),
    ensures
        directives_parse_safely(dirs),
{
    assert forall|i: int, e: int| is_piece(dirs, i, e) implies directive_parses_safely(
        dirs.subrange(i, e),
    ) by {
        let from = dirs.subrange(i, e);
        assert forall|a: int, b: int| trim_bounds(from, a, b) implies trimmed_safe(
            from,
            from.subrange(a, b),
        ) by {
            if a > 0 {
                assert(spec_is_whitespace(from[0]));
                assert(from[0] == dirs[i]);
            }
            let t = from.subrange(a, b);
            assert forall|m: int| 0 <= m <= t.len() implies is_boundary(
                from,
                #[trigger] byte_offset(t, m),
            ) by {
                lemma_offset_prefix(from, t, m);
                assert(0 <= m <= from.len() && byte_offset(from, m) == byte_offset(t, m));
            }
            lemma_trimmed_safe(from, t);
        }
    }
}

/// Tests whether `c` has the Unicode `White_Space` property.
pub fn is_whitespace(c: char) -> (res: bool)
    ensures
        res == spec_is_whitespace(c),
{
    let v = c as u32;
    (0x9 <= v && v <= 0xD) || v == 0x20 || v == 0x85 || v == 0xA0 || v == 0x1680 || (0x2000
        <= v && v <= 0x200A) || v == 0x2028 || v == 0x2029 || v == 0x202F || v == 0x205F || v
        == 0x3000
}

/// Calls `char::is_alphanumeric`. Claimed: the result is the name `char_is_alphanumeric`
/// applied to `c` (it depends on `c` alone).
#[verifier::external_body]
fn is_alphanumeric(c: char) -> (res: bool)
    ensures
        res == char_is_alphanumeric(c),
{
    c.is_alphanumeric()
}

/// The number of bytes of `c` in UTF-8.
pub fn utf8_width(c: char) -> (n: u128)
    ensures
        n == utf8_len(c),
{
    let v = c as u32;
    if v < 0x80 {
        1
    } else if v < 0x800 {
        2
    } else if v < 0x10000 {
        3
    } else {
        4
    }
}

/// Whether byte position `x` is a character boundary of `chars[lo..hi]`.
fn boundary(chars: &Vec<char>, lo: usize, hi: usize, x: u128) -> (r: bool)
    requires
        lo <= hi <= chars.len(),
    ensures
        r == is_boundary(chars@.subrange(lo as int, hi as int), x as int),
{
    let ghost s = chars@.subrange(lo as int, hi as int);
    let n = hi - lo;
    let mut k: usize = 0;
    let mut off: u128 = 0;
    loop
        invariant
            lo <= hi <= chars.len(),
            n == hi - lo,
            s == chars@.subrange(lo as int, hi as int),
            k <= n,
            off == byte_offset(s, k as int),
            off <= 4 * k,
            forall|j: int| 0 <= j < k ==> byte_offset(s, j) != x,
        decreases n - k,
    {
        if off == x {
            return true;
        }
        if k == n {
            assert forall|j: int| 0 <= j <= s.len() implies byte_offset(s, j) != x by {
                if j == k {
                } else {
                }
            }
            return false;
        }
        off = off + utf8_width(chars[lo + k]);
        k = k + 1;
    }
}

/// One step of the parser, as `step` states it, on `chars[lo..hi]`.
fn step_exec(st: DirectiveState, c: char, i: u128, chars: &Vec<char>, lo: usize, hi: usize) -> (r: (
    DirectiveState,
    bool,
))
    requires
        lo <= hi <= chars.len(),
        i < u128::MAX,
    ensures
        r == step(st, c, i, chars@.subrange(lo as int, hi as int)),
{
    match st {
        DirectiveState::Start => {
            if c == '[' {
                (DirectiveState::Span(i + 1), true)
            } else if c != '-' && c != ':' && c != '_' && !is_alphanumeric(c) {
                (DirectiveState::Failed, true)
            } else {
                (DirectiveState::LevelOrTarget(i), true)
            }
        },
        DirectiveState::LevelOrTarget(start) => {
            if c == '=' {
                let ok = boundary(chars, lo, hi, start) && boundary(chars, lo, hi, i);
                (DirectiveState::Level(i + 1), ok)
            } else if c == '[' {
                let ok = boundary(chars, lo, hi, start) && boundary(chars, lo, hi, i);
                (DirectiveState::Span(i + 1), ok)
            } else {
                (st, true)
            }
        },
        DirectiveState::Target => {
            if c == '=' {
                (DirectiveState::Level(i + 1), true)
            } else {
                (DirectiveState::Failed, true)
            }
        },
        DirectiveState::Span(ss) => {
            if c == ']' {
                let ok = boundary(chars, lo, hi, ss) && boundary(chars, lo, hi, i);
                (DirectiveState::Target, ok)
            } else if c == '{' {
                let ok = boundary(chars, lo, hi, ss) && boundary(chars, lo, hi, i);
                (DirectiveState::Field(i + 1), ok)
            } else {
                (st, true)
            }
        },
        DirectiveState::Field(fs) => {
            if c == '}' {
                let ok = boundary(chars, lo, hi, fs) && boundary(chars, lo, hi, i);
                if fs == i {
                    (DirectiveState::Failed, ok)
                } else {
                    (DirectiveState::Fields, ok)
                }
            } else {
                (st, true)
            }
        },
        DirectiveState::Fields => {
            if c == ']' {
                (DirectiveState::Target, true)
            } else {
                (DirectiveState::Failed, true)
            }
        },
        DirectiveState::Level(_) => (st, true),
        DirectiveState::Failed => (st, true),
    }
}

/// Two ways to trim the same piece give the same text.
proof fn lemma_trim_unique(from: Seq<char>, a: int, b: int, a2: int, b2: int)
    requires
        trim_bounds(from, a, b),
        trim_bounds(from, a2, b2),
    ensures
        from.subrange(a, b) == from.subrange(a2, b2),
{
    if a < b && a2 < b2 {
        if a < a2 {
            assert(spec_is_whitespace(from[a]));
        }
        if a2 < a {
            assert(spec_is_whitespace(from[a2]));
        }
        if b < b2 {
            assert(spec_is_whitespace(from[b2 - 1]));
        }
        if b2 < b {
            assert(spec_is_whitespace(from[b - 1]));
        }
    } else if a < b {
        if a < a2 {
            assert(spec_is_whitespace(from[a]));
        } else {
            assert(spec_is_whitespace(from[a]));
        }
    } else if a2 < b2 {
        if a2 < a {
            assert(spec_is_whitespace(from[a2]));
        } else {
            assert(spec_is_whitespace(from[a2]));
        }
    } else {
        assert(from.subrange(a, b) =~= from.subrange(a2, b2));
    }
}

/// Whether the parser reads the piece `chars[lo..hi]` without a cut inside a character.
fn piece_parses_safely(chars: &Vec<char>, lo: usize, hi: usize) -> (ok: bool)
    requires
        lo <= hi <= chars.len(),
    ensures
        ok == directive_parses_safely(chars@.subrange(lo as int, hi as int)),
{
    let ghost from = chars@.subrange(lo as int, hi as int);
    let n = hi - lo;
    let mut a: usize = 0;
    while a < n && is_whitespace(chars[lo + a])
        invariant
            lo <= hi <= chars.len(),
            n == hi - lo,
            from == chars@.subrange(lo as int, hi as int),
            a <= n,
            forall|k: int| 0 <= k < a ==> spec_is_whitespace(#[trigger] from[k]),
        decreases n - a,
    {
        a = a + 1;
    }
    let mut b: usize = n;
    if a < n {
        while b > a + 1 && is_whitespace(chars[lo + b - 1])
            invariant
                lo <= hi <= chars.len(),
                n == hi - lo,
                from == chars@.subrange(lo as int, hi as int),
                a < b <= n,
                !spec_is_whitespace(from[a as int]),
                forall|k: int| b <= k < n ==> spec_is_whitespace(#[trigger] from[k]),
            decreases b,
        {
            b = b - 1;
        }
    }
    assert(trim_bounds(from, a as int, b as int));
    let ghost t = from.subrange(a as int, b as int);
    let mut st = DirectiveState::Start;
    let mut ok = true;
    let mut k: usize = 0;
    let mut off: u128 = 0;
    while k < b - a
        invariant
            lo <= hi <= chars.len(),
            n == hi - lo,
            from == chars@.subrange(lo as int, hi as int),
            a <= b <= n,
            t == from.subrange(a as int, b as int),
            k <= b - a,
            (st, ok) == scan(from, t, k as int),
            off == byte_offset(t, k as int),
            off <= 4 * k,
        decreases b - a - k,
    {
        let c = chars[lo + a + k];
        assert(c == t[k as int]);
        let r = step_exec(st, c, off, chars, lo, hi);
        ok = ok && r.1;
        st = r.0;
        off = off + utf8_width(c);
        k = k + 1;
    }
    let end_ok = match st {
        DirectiveState::LevelOrTarget(start) => boundary(chars, lo, hi, start),
        DirectiveState::Level(ls) => boundary(chars, lo, hi, ls),
        _ => true,
    };
    proof {
        assert forall|a2: int, b2: int| trim_bounds(from, a2, b2) implies trimmed_safe(
            from,
            from.subrange(a2, b2),
        ) == trimmed_safe(from, t) by {
            lemma_trim_unique(from, a as int, b as int, a2, b2);
        }
    }
    ok && end_ok
}

/// Tests whether the environment filter's parser reads every piece of the
/// comma-separated `dirs` without a cut inside a character, so without panicking.
pub fn check_directives(dirs: &str) -> (ok: bool)
    ensures
        ok == directives_parse_safely(dirs@),
{
    let n = dirs.unicode_len();
    let mut chars: Vec<char> = Vec::new();
    let mut j: usize = 0;
    while j < n
        invariant
            n == dirs@.len(),
            j <= n,
            chars@ == dirs@.subrange(0, j as int),
        decreases n - j,
    {
        chars.push(dirs.get_char(j));
        j = j + 1;
    }
    assert(chars@ == dirs@);
    let ghost s = dirs@;
    let mut i: usize = 0;
    loop
        invariant
            s == dirs@,
            chars@ == s,
            n == s.len(),
            i <= n,
            starts_directive(s, i as int),
            forall|i2: int, e2: int|
                #![trigger is_piece(s, i2, e2)]
                is_piece(s, i2, e2) && i2 < i ==> directive_parses_safely(s.subrange(i2, e2)),
        decreases n - i,
    {
        let mut e: usize = i;
        while e < n && chars[e] != ','
            invariant
                chars@ == s,
                n == s.len(),
                i <= e <= n,
                forall|k: int| i <= k < e ==> s[k] != ',',
            decreases n - e,
        {
            e = e + 1;
        }
        assert(is_piece(s, i as int, e as int));
        if !piece_parses_safely(&chars, i, e) {
            return false;
        }
        assert forall|i2: int, e2: int|
            #![trigger is_piece(s, i2, e2)]
            is_piece(s, i2, e2) && i2 <= e implies directive_parses_safely(s.subrange(i2, e2)) by {
            if i2 > i {
                assert(s[i2 - 1] == ',');
            } else if i2 == i {
                if e2 < e {
                    assert(s[e2] == ',');
                } else if e2 > e {
                    assert(s[e as int] == ',');
                }
            }
        }
        if e == n {
            assert forall|i2: int, e2: int| is_piece(s, i2, e2) implies directive_parses_safely(
                s.subrange(i2, e2),
            ) by {
                if i2 > e {
                    assert(false);
                }
            }
            return true;
        }
        i = e + 1;
    }
}

} // verus!
