//! Character-level helpers over `String` / `&str`, with their models on `Seq<char>`.
use vstd::prelude::*;
use vstd::string::*;

verus! {

/// The decimal digit for `d` (taken modulo ten).
pub open spec fn digit_char(d: nat) -> char {
    let d = d % 10;
    if d == 0 {
        '0'
    } else if d == 1 {
        '1'
    } else if d == 2 {
        '2'
    } else if d == 3 {
        '3'
    } else if d == 4 {
        '4'
    } else if d == 5 {
        '5'
    } else if d == 6 {
        '6'
    } else if d == 7 {
        '7'
    } else if d == 8 {
        '8'
    } else {
        '9'
    }
}

/// Decimal notation of a natural number, without leading zeros.
pub open spec fn decimal(n: nat) -> Seq<char>
    decreases n,
{
    if n < 10 {
        seq![digit_char(n)]
    } else {
        decimal(n / 10) + seq![digit_char(n % 10)]
    }
}

/// `c` repeated `n` times.
pub open spec fn repeated(c: char, n: nat) -> Seq<char> {
    Seq::new(n, |i: int| c)
}

/// `needle` occurs in `hay` as a contiguous block.
pub open spec fn has_infix(hay: Seq<char>, needle: Seq<char>) -> bool {
    exists|i: int| 0 <= i <= hay.len() - needle.len() && #[trigger] hay.subrange(i, i + needle.len()) == needle
}

/// Relies on `String::push`: appends one character.
#[verifier::external_body]
pub(crate) fn push_char(s: &mut String, c: char)
    ensures
        final(s)@ == old(s)@.push(c),
{
    s.push(c)
}

/// The decimal digit of `d % 10`.
pub fn digit_of(d: u64) -> (c: char)
    ensures
        c == digit_char(d as nat),
{
    match d % 10 {
        0 => '0',
        1 => '1',
        2 => '2',
        3 => '3',
        4 => '4',
        5 => '5',
        6 => '6',
        7 => '7',
        8 => '8',
        _ => '9',
    }
}

/// Appends the decimal notation of `n`.
pub fn push_decimal(s: &mut String, n: u64)
    ensures
        final(s)@ == old(s)@ + decimal(n as nat),
    decreases n,
{
    if n >= 10 {
        push_decimal(s, n / 10);
    }
    let c = digit_of(n % 10);
    push_char(s, c);
    proof {
        assert(digit_char((n % 10) as nat) == digit_char(n as nat));
    }
}

/// Appends the characters of `t`.
pub fn push_text(s: &mut String, t: &str)
    ensures
        final(s)@ == old(s)@ + t@,
{
    s.append(t);
}

/// Appends `c` `n` times.
pub fn push_repeated(s: &mut String, c: char, n: usize)
    ensures
        final(s)@ == old(s)@ + repeated(c, n as nat),
{
    let ghost start = s@;
    let mut i: usize = 0;
    while i < n
        invariant
            i <= n,
            s@ == start + repeated(c, i as nat),
        decreases n - i,
    {
        push_char(s, c);
        i = i + 1;
        assert(s@ =~= start + repeated(c, i as nat));
    }
}

/// Character-wise equality of two strings.
pub fn same_text(a: &str, b: &str) -> (r: bool)
    ensures
        r == (a@ == b@),
{
    let n = a.unicode_len();
    if n != b.unicode_len() {
        return false;
    }
    let mut i: usize = 0;
    while i < n
        invariant
            n == a@.len(),
            n == b@.len(),
            i <= n,
            forall|j: int| 0 <= j < i ==> a@[j] == b@[j],
        decreases n - i,
    {
        if a.get_char(i) != b.get_char(i) {
            return false;
        }
        i = i + 1;
    }
    assert(a@ =~= b@);
    true
}

/// Whether `needle` occurs in `hay`.
pub fn contains_text(hay: &str, needle: &str) -> (r: bool)
    ensures
        r == has_infix(hay@, needle@),
{
    let n = hay.unicode_len();
    let m = needle.unicode_len();
    if m > n {
        return false;
    }
    if m == 0 {
        assert(hay@.subrange(0int, 0int + needle@.len()) =~= needle@);
        return true;
    }
    let mut i: usize = 0;
    while i <= n - m
        invariant
            n == hay@.len(),
            m == needle@.len(),
            1 <= m <= n,
            i <= n - m + 1,
            forall|k: int| 0 <= k < i ==> #[trigger] hay@.subrange(k, k + m) != needle@,
        decreases n - m + 1 - i,
    {
        let mut j: usize = 0;
        let mut ok = true;
        while j < m
            invariant
                n == hay@.len(),
                m == needle@.len(),
                i + m <= n,
                j <= m,
                ok ==> forall|q: int| 0 <= q < j ==> hay@[i + q] == needle@[q],
                !ok ==> hay@.subrange(i as int, i + m) != needle@,
            decreases m - j,
        {
            if ok && hay.get_char(i + j) != needle.get_char(j) {
                ok = false;
                assert(hay@.subrange(i as int, i + m)[j as int] != needle@[j as int]);
            }
            j = j + 1;
        }
        if ok {
            assert(hay@.subrange(i as int, i + m) =~= needle@);
            return true;
        }
        i = i + 1;
    }
    false
}

/// Splits `s` at each `'\n'`: the pieces finished so far, and the piece still open.
pub open spec fn split_acc(s: Seq<char>) -> (Seq<Seq<char>>, Seq<char>)
    decreases s.len(),
{
    if s.len() == 0 {
        (seq![], seq![])
    } else {
        let (done, cur) = split_acc(s.drop_last());
        if s.last() == '\n' {
            (done.push(cur), seq![])
        } else {
            (done, cur.push(s.last()))
        }
    }
}

/// The pieces of `s` between newlines, the last one included even when empty
/// (so `k` newlines always give `k + 1` pieces).
pub open spec fn pieces(s: Seq<char>) -> Seq<Seq<char>> {
    split_acc(s).0.push(split_acc(s).1)
}

/// The lines of `s`: its pieces between newlines, without the empty piece that
/// a final newline (or an empty text) leaves.
pub open spec fn lines_of(s: Seq<char>) -> Seq<Seq<char>> {
    if split_acc(s).1.len() == 0 {
        split_acc(s).0
    } else {
        pieces(s)
    }
}

/// `s` holds no newline.
pub open spec fn single_line(s: Seq<char>) -> bool {
    forall|i: int| 0 <= i < s.len() ==> s[i] != '\n'
}

/// A text without newlines is one open piece.
pub proof fn lemma_split_single(s: Seq<char>)
    requires
        single_line(s),
    ensures
        split_acc(s) == (Seq::<Seq<char>>::empty(), s),
    decreases s.len(),
{
    if s.len() > 0 {
        lemma_split_single(s.drop_last());
        assert(s.drop_last().push(s.last()) =~= s);
    }
}

/// Splits `s` at its newlines into `pieces(s)` (see there), or into
/// `lines_of(s)` when `drop_final_empty` is set.
pub fn split_pieces(s: &str, drop_final_empty: bool) -> (r: Vec<String>)
    ensures
        r@.len() == (if drop_final_empty { lines_of(s@) } else { pieces(s@) }).len(),
        forall|j: int|
            0 <= j < r@.len() ==> #[trigger] r@[j]@ == (if drop_final_empty {
                lines_of(s@)
            } else {
                pieces(s@)
            })[j],
{
    let n = s.unicode_len();
    let mut done: Vec<String> = Vec::new();
    let mut cur = String::new();
    let mut i: usize = 0;
    while i < n
        invariant
            n == s@.len(),
            i <= n,
            done@.len() == split_acc(s@.subrange(0, i as int)).0.len(),
            forall|j: int| 0 <= j < done@.len() ==> #[trigger] done@[j]@ == split_acc(s@.subrange(0, i as int)).0[j],
            cur@ == split_acc(s@.subrange(0, i as int)).1,
        decreases n - i,
    {
        let c = s.get_char(i);
        assert(s@.subrange(0, i + 1).drop_last() =~= s@.subrange(0, i as int));
        if c == '\n' {
            let piece = cur;
            done.push(piece);
            cur = String::new();
        } else {
            push_char(&mut cur, c);
        }
        i = i + 1;
    }
    assert(s@.subrange(0, n as int) =~= s@);
    if !drop_final_empty || cur.unicode_len() > 0 {
        done.push(cur);
    }
    done
}

/// `c` has the Unicode White_Space property.
pub open spec fn is_blank(c: char) -> bool {
    ('\t' <= c && c <= '\r') || c == ' ' || c == '\u{85}' || c == '\u{a0}' || c == '\u{1680}' || ('\u{2000}' <= c
        && c <= '\u{200a}') || c == '\u{2028}' || c == '\u{2029}' || c == '\u{202f}' || c == '\u{205f}' || c == '\u{3000}'
}

/// Length of `s` once trailing whitespace is removed.
pub open spec fn trimmed_len(s: Seq<char>) -> nat
    decreases s.len(),
{
    if s.len() > 0 && is_blank(s.last()) {
        trimmed_len(s.drop_last())
    } else {
        s.len()
    }
}

/// `s` without its trailing whitespace.
pub open spec fn trim_end_blank(s: Seq<char>) -> Seq<char> {
    s.subrange(0, trimmed_len(s) as int)
}

proof fn lemma_trimmed_len_bound(s: Seq<char>)
    ensures
        trimmed_len(s) <= s.len(),
    decreases s.len(),
{
    if s.len() > 0 && is_blank(s.last()) {
        lemma_trimmed_len_bound(s.drop_last());
    }
}

/// Copies `s` without its trailing whitespace.
pub fn trimmed_end(s: &str) -> (r: String)
    ensures
        r@ == trim_end_blank(s@),
{
    let n = s.unicode_len();
    let mut k: usize = n;
    assert(s@.subrange(0, n as int) =~= s@);
    while k > 0 && is_blank_char(s.get_char(k - 1))
        invariant
            n == s@.len(),
            k <= n,
            trimmed_len(s@.subrange(0, k as int)) == trimmed_len(s@),
        decreases k,
    {
        assert(s@.subrange(0, k as int).drop_last() =~= s@.subrange(0, k - 1));
        k = k - 1;
    }
    assert(s@.subrange(0, n as int) =~= s@);
    proof {
        lemma_trimmed_len_bound(s@);
    }
    let mut out = String::new();
    push_text(&mut out, s.substring_char(0, k));
    assert(out@ =~= trim_end_blank(s@));
    out
}

fn is_blank_char(c: char) -> (r: bool)
    ensures
        r == is_blank(c),
{
    ('\t' <= c && c <= '\r') || c == ' ' || c == '\u{85}' || c == '\u{a0}' || c == '\u{1680}' || ('\u{2000}' <= c
        && c <= '\u{200a}') || c == '\u{2028}' || c == '\u{2029}' || c == '\u{202f}' || c == '\u{205f}' || c == '\u{3000}'
}

/// Terminal columns of one character outside escape sequences: 0 for
/// combining marks, zero-width spaces and joiners and variation selectors; 2
/// for the East Asian wide and fullwidth blocks (Hangul Jamo, CJK, Hiragana,
/// Katakana, Hangul syllables, compatibility ideographs, fullwidth forms) and
/// the pictograph and emoji blocks; 1 for every other character.
pub open spec fn char_columns(c: char) -> nat {
    let u = c as u32;
    if (0x300 <= u <= 0x36f) || (0x483 <= u <= 0x489) || (0x1ab0 <= u <= 0x1aff) || (0x1dc0 <= u <= 0x1dff) || (
    0x200b <= u <= 0x200f) || (0x20d0 <= u <= 0x20ff) || (0xfe00 <= u <= 0xfe0f) || (0xfe20 <= u <= 0xfe2f) {
        0
    } else if (0x1100 <= u <= 0x115f) || (0x2e80 <= u <= 0x303e) || (0x3041 <= u <= 0x33ff) || (0x3400 <= u
        <= 0x4dbf) || (0x4e00 <= u <= 0x9fff) || (0xa000 <= u <= 0xa4cf) || (0xac00 <= u <= 0xd7a3) || (0xf900
        <= u <= 0xfaff) || (0xfe30 <= u <= 0xfe4f) || (0xff00 <= u <= 0xff60) || (0xffe0 <= u <= 0xffe6) || (
    0x1f300 <= u <= 0x1f64f) || (0x1f900 <= u <= 0x1f9ff) || (0x20000 <= u <= 0x2fffd) || (0x30000 <= u
        <= 0x3fffd) {
        2
    } else {
        1
    }
}

fn char_columns_of(c: char) -> (r: usize)
    ensures
        r as nat == char_columns(c),
{
    let u = c as u32;
    if (0x300 <= u && u <= 0x36f) || (0x483 <= u && u <= 0x489) || (0x1ab0 <= u && u <= 0x1aff) || (0x1dc0 <= u
        && u <= 0x1dff) || (0x200b <= u && u <= 0x200f) || (0x20d0 <= u && u <= 0x20ff) || (0xfe00 <= u && u
        <= 0xfe0f) || (0xfe20 <= u && u <= 0xfe2f) {
        0
    } else if (0x1100 <= u && u <= 0x115f) || (0x2e80 <= u && u <= 0x303e) || (0x3041 <= u && u <= 0x33ff) || (
    0x3400 <= u && u <= 0x4dbf) || (0x4e00 <= u && u <= 0x9fff) || (0xa000 <= u && u <= 0xa4cf) || (0xac00
        <= u && u <= 0xd7a3) || (0xf900 <= u && u <= 0xfaff) || (0xfe30 <= u && u <= 0xfe4f) || (0xff00 <= u
        && u <= 0xff60) || (0xffe0 <= u && u <= 0xffe6) || (0x1f300 <= u && u <= 0x1f64f) || (0x1f900 <= u && u
        <= 0x1f9ff) || (0x20000 <= u && u <= 0x2fffd) || (0x30000 <= u && u <= 0x3fffd) {
        2
    } else {
        1
    }
}

/// Left-to-right scan for terminal columns: the columns counted so far, and
/// the state: 0 in plain text, 1 just after `ESC`, 2 inside a control
/// sequence (`ESC [` up to a final character in `@..=~`). Escape sequences
/// take no columns; every other character takes `char_columns`.
pub open spec fn width_scan(s: Seq<char>) -> (nat, nat)
    decreases s.len(),
{
    if s.len() == 0 {
        (0, 0)
    } else {
        let (w, st) = width_scan(s.drop_last());
        let c = s.last();
        if st == 0 {
            if c == '\x1b' {
                (w, 1)
            } else {
                (w + char_columns(c), 0)
            }
        } else if st == 1 {
            if c == '[' {
                (w, 2)
            } else {
                (w, 0)
            }
        } else if '@' <= c && c <= '~' {
            (w, 0)
        } else {
            (w, 2)
        }
    }
}

/// Terminal columns that `s` takes, escape sequences excluded.
pub open spec fn display_width(s: Seq<char>) -> nat {
    width_scan(s).0
}

/// `display_width`, capped at the largest `usize`.
pub open spec fn display_width_capped(s: Seq<char>) -> nat {
    if display_width(s) > usize::MAX {
        usize::MAX as nat
    } else {
        display_width(s)
    }
}

/// Counts the terminal columns of `s`, escape sequences excluded (capped at
/// the largest `usize`, which no text in memory reaches).
pub fn display_width_of(s: &str) -> (r: usize)
    ensures
        r as nat == display_width_capped(s@),
{
    let n = s.unicode_len();
    let mut w: usize = 0;
    let mut st: u8 = 0;
    let mut i: usize = 0;
    while i < n
        invariant
            n == s@.len(),
            i <= n,
            st as nat == width_scan(s@.subrange(0, i as int)).1,
            w as nat == display_width_capped(s@.subrange(0, i as int)),
        decreases n - i,
    {
        assert(s@.subrange(0, i + 1).drop_last() =~= s@.subrange(0, i as int));
        let c = s.get_char(i);
        if st == 0 {
            if c == '\x1b' {
                st = 1;
            } else {
                let k = char_columns_of(c);
                if w > usize::MAX - k {
                    w = usize::MAX;
                } else {
                    w = w + k;
                }
            }
        } else if st == 1 {
            if c == '[' {
                st = 2;
            } else {
                st = 0;
            }
        } else if '@' <= c && c <= '~' {
            st = 0;
        }
        i = i + 1;
    }
    assert(s@.subrange(0, n as int) =~= s@);
    w
}

} // verus!
