//! Character-level string operations and their specifications.
//!
//! Strings are specified by their views, sequences of `char`. The Unicode
//! character classes used here (`White_Space`, control codes) are named
//! after the `char` methods that decide them.

use vstd::prelude::*;

verus! {

/// Whether `c` has the Unicode `White_Space` property, as `char::is_whitespace`
/// decides it: tab through carriage return, space, next line, no-break space,
/// ogham space mark, the spaces from en quad through hair space, the line and
/// paragraph separators, narrow no-break space, medium mathematical space and
/// ideographic space.
pub open spec fn is_whitespace_char(c: char) -> bool {
    let u = c as u32;
    ||| 0x9 <= u <= 0xD
    ||| u == 0x20
    ||| u == 0x85
    ||| u == 0xA0
    ||| u == 0x1680
    ||| 0x2000 <= u <= 0x200A
    ||| u == 0x2028
    ||| u == 0x2029
    ||| u == 0x202F
    ||| u == 0x205F
    ||| u == 0x3000
}

/// Whether `c` is in the Unicode general category of control codes (`Cc`),
/// as `char::is_control` decides it: U+0000 through U+001F and U+007F
/// through U+009F.
pub open spec fn is_control_char(c: char) -> bool {
    let u = c as u32;
    (u <= 0x1F) || (0x7F <= u <= 0x9F)
}

/// Whether `c` is whitespace, as `char::is_whitespace` decides it.
pub fn char_is_whitespace(c: char) -> (b: bool)
    ensures
        b == is_whitespace_char(c),
{
    let u = c as u32;
    (0x9 <= u && u <= 0xD) || u == 0x20 || u == 0x85 || u == 0xA0 || u == 0x1680 || (0x2000 <= u && u <= 0x200A)
        || u == 0x2028 || u == 0x2029 || u == 0x202F || u == 0x205F || u == 0x3000
}

/// Whether `c` is a control code, as `char::is_control` decides it.
pub fn char_is_control(c: char) -> (b: bool)
    ensures
        b == is_control_char(c),
{
    let u = c as u32;
    u <= 0x1F || (0x7F <= u && u <= 0x9F)
}

/// Calls `String::push`, which appends one character.
#[verifier::external_body]
pub(crate) fn push_char(s: &mut String, c: char)
    ensures
        final(s)@ == old(s)@.push(c),
{
    s.push(c);
}

/// The characters of `s`, in order.
pub fn chars_of(s: &str) -> (v: Vec<char>)
    ensures
        v@ == s@,
{
    let mut v: Vec<char> = Vec::new();
    for c in it: s.chars()
        invariant
            v@ == it.seq().take(it.index() as int),
    {
        v.push(c);
    }
    v
}

/// A string holding the characters of `chars[from..to]`.
pub fn string_from_range(chars: &Vec<char>, from: usize, to: usize) -> (s: String)
    requires
        from <= to <= chars@.len(),
    ensures
        s@ == chars@.subrange(from as int, to as int),
{
    let mut s = String::new();
    let mut i = from;
    while i < to
        invariant
            from <= i <= to <= chars@.len(),
            s@ == chars@.subrange(from as int, i as int),
        decreases to - i,
    {
        push_char(&mut s, chars[i]);
        i = i + 1;
        assert(s@ =~= chars@.subrange(from as int, i as int));
    }
    s
}

/// A string holding exactly the characters of `chars`.
pub fn string_from_chars(chars: &Vec<char>) -> (s: String)
    ensures
        s@ == chars@,
{
    let s = string_from_range(chars, 0, chars.len());
    assert(chars@.subrange(0, chars@.len() as int) =~= chars@);
    s
}

/// Appends the characters of `tail` to `s`.
pub fn push_str(s: &mut String, tail: &str)
    ensures
        final(s)@ == old(s)@ + tail@,
{
    let chars = chars_of(tail);
    let ghost start = s@;
    let mut i: usize = 0;
    while i < chars.len()
        invariant
            i <= chars@.len(),
            chars@ == tail@,
            s@ == start + chars@.subrange(0, i as int),
        decreases chars.len() - i,
    {
        push_char(s, chars[i]);
        i = i + 1;
        assert(s@ =~= start + chars@.subrange(0, i as int));
    }
    assert(chars@.subrange(0, chars@.len() as int) =~= chars@);
}

/// The text of an optional string.
pub open spec fn opt_text(o: Option<String>) -> Option<Seq<char>> {
    match o {
        Some(s) => Some(s@),
        None => None,
    }
}

/// Whether every character of `s` is whitespace (so `s.trim()` is empty).
pub open spec fn all_whitespace(s: Seq<char>) -> bool {
    forall|i: int| 0 <= i < s.len() ==> is_whitespace_char(#[trigger] s[i])
}

/// Whether some character of `s` is a control code.
pub open spec fn has_control(s: Seq<char>) -> bool {
    exists|i: int| 0 <= i < s.len() && is_control_char(#[trigger] s[i])
}

/// Whether `p` is a prefix of `s`.
pub open spec fn is_prefix(p: Seq<char>, s: Seq<char>) -> bool {
    p.len() <= s.len() && s.subrange(0, p.len() as int) == p
}

/// Whether `p` is a suffix of `s`.
pub open spec fn is_suffix(p: Seq<char>, s: Seq<char>) -> bool {
    p.len() <= s.len() && s.subrange(s.len() - p.len(), s.len() as int) == p
}

/// Whether `p` occurs in `s` starting at index `i`.
pub open spec fn occurs_at(s: Seq<char>, p: Seq<char>, i: int) -> bool {
    0 <= i && i + p.len() <= s.len() && s.subrange(i, i + p.len()) == p
}

/// Whether `p` occurs anywhere in `s` (`str::contains` with a string pattern).
pub open spec fn has_substring(s: Seq<char>, p: Seq<char>) -> bool {
    exists|i: int| #[trigger] occurs_at(s, p, i)
}

/// Whether the character `c` occurs in `s`.
pub open spec fn has_char(s: Seq<char>, c: char) -> bool {
    exists|i: int| 0 <= i < s.len() && s[i] == c
}

/// `s` without its leading whitespace (`str::trim_start`).
pub open spec fn trim_start_spec(s: Seq<char>) -> Seq<char>
    decreases s.len(),
{
    if s.len() > 0 && is_whitespace_char(s[0]) {
        trim_start_spec(s.drop_first())
    } else {
        s
    }
}

/// `s` without its trailing whitespace (`str::trim_end`).
pub open spec fn trim_end_spec(s: Seq<char>) -> Seq<char>
    decreases s.len(),
{
    if s.len() > 0 && is_whitespace_char(s.last()) {
        trim_end_spec(s.drop_last())
    } else {
        s
    }
}

/// `s` without leading and trailing whitespace (`str::trim`).
pub open spec fn trim_spec(s: Seq<char>) -> Seq<char> {
    trim_end_spec(trim_start_spec(s))
}

/// The words of `s` joined by single spaces: runs of whitespace between
/// words become one space, and leading and trailing whitespace disappears
/// (`s.split_whitespace().collect::<Vec<_>>().join(" ")`).
pub open spec fn collapse_whitespace(s: Seq<char>) -> Seq<char> {
    squeeze(s, false, false)
}

/// The collapsing walk over `s`: `started` records that a word was already
/// emitted, `pending` that whitespace followed it.
pub open spec fn squeeze(s: Seq<char>, pending: bool, started: bool) -> Seq<char>
    decreases s.len(),
{
    if s.len() == 0 {
        Seq::empty()
    } else if is_whitespace_char(s[0]) {
        squeeze(s.drop_first(), started, started)
    } else {
        (if pending { seq![' '] } else { Seq::empty() }) + seq![s[0]] + squeeze(
            s.drop_first(),
            false,
            true,
        )
    }
}

/// Whether two strings hold the same text.
pub fn string_eq_text(a: &str, b: &str) -> (r: bool)
    ensures
        r == (a@ == b@),
{
    a.to_owned() == b.to_owned()
}

/// Whether every character of `s` is whitespace.
pub fn is_blank(s: &str) -> (b: bool)
    ensures
        b == all_whitespace(s@),
{
    let chars = chars_of(s);
    let mut i: usize = 0;
    while i < chars.len()
        invariant
            i <= chars@.len(),
            chars@ == s@,
            forall|j: int| 0 <= j < i ==> is_whitespace_char(#[trigger] chars@[j]),
        decreases chars.len() - i,
    {
        if !char_is_whitespace(chars[i]) {
            return false;
        }
        i = i + 1;
    }
    true
}

/// Whether some character of `s` is a control code.
pub fn contains_control(s: &str) -> (b: bool)
    ensures
        b == has_control(s@),
{
    let chars = chars_of(s);
    let mut i: usize = 0;
    while i < chars.len()
        invariant
            i <= chars@.len(),
            chars@ == s@,
            forall|j: int| 0 <= j < i ==> !is_control_char(#[trigger] chars@[j]),
        decreases chars.len() - i,
    {
        if char_is_control(chars[i]) {
            return true;
        }
        i = i + 1;
    }
    false
}

/// Whether `p` occurs in `s` at index `i`.
pub fn matches_at(s: &Vec<char>, p: &Vec<char>, i: usize) -> (b: bool)
    ensures
        b == occurs_at(s@, p@, i as int),
{
    if i > s.len() || p.len() > s.len() - i {
        return false;
    }
    let n = s.len();
    let mut k: usize = 0;
    while k < p.len()
        invariant
            k <= p@.len(),
            n == s@.len(),
            i + p@.len() <= s@.len(),
            forall|j: int| 0 <= j < k ==> s@[i + j] == p@[j],
        decreases p.len() - k,
    {
        if s[i + k] != p[k] {
            assert(s@.subrange(i as int, i + p@.len())[k as int] != p@[k as int]);
            return false;
        }
        k = k + 1;
    }
    assert(s@.subrange(i as int, i + p@.len()) =~= p@);
    true
}

/// Whether `prefix` begins `s`.
pub fn starts_with(s: &str, prefix: &str) -> (b: bool)
    ensures
        b == is_prefix(prefix@, s@),
{
    let sc = chars_of(s);
    let pc = chars_of(prefix);
    matches_at(&sc, &pc, 0)
}

/// Whether `suffix` ends `s`.
pub fn ends_with(s: &str, suffix: &str) -> (b: bool)
    ensures
        b == is_suffix(suffix@, s@),
{
    let sc = chars_of(s);
    let pc = chars_of(suffix);
    if pc.len() > sc.len() {
        return false;
    }
    matches_at(&sc, &pc, sc.len() - pc.len())
}

/// Whether `pattern` occurs in `s`.
pub fn contains(s: &str, pattern: &str) -> (b: bool)
    ensures
        b == has_substring(s@, pattern@),
{
    let sc = chars_of(s);
    let pc = chars_of(pattern);
    if pc.len() > sc.len() {
        assert forall|i: int| !occurs_at(s@, pattern@, i) by {}
        return false;
    }
    if pc.len() == 0 {
        assert(s@.subrange(0, 0) =~= pattern@);
        assert(occurs_at(s@, pattern@, 0));
        return true;
    }
    let last = sc.len() - pc.len();
    let mut i: usize = 0;
    while i <= last
        invariant
            last + pc@.len() == sc@.len(),
            pc@.len() > 0,
            last < sc.len(),
            sc@.len() == sc.len(),
            sc@ == s@,
            pc@ == pattern@,
            forall|j: int| 0 <= j < i ==> !occurs_at(s@, pattern@, j),
        decreases last + 1 - i,
    {
        if matches_at(&sc, &pc, i) {
            assert(occurs_at(s@, pattern@, i as int));
            return true;
        }
        i = i + 1;
    }
    assert forall|j: int| !occurs_at(s@, pattern@, j) by {
        if 0 <= j && j + pattern@.len() <= s@.len() {
            assert(j < i);
        }
    }
    false
}

/// Whether the character `c` occurs in `s`.
pub fn contains_char(s: &str, c: char) -> (b: bool)
    ensures
        b == has_char(s@, c),
{
    let chars = chars_of(s);
    let mut i: usize = 0;
    while i < chars.len()
        invariant
            i <= chars@.len(),
            chars@ == s@,
            forall|j: int| 0 <= j < i ==> chars@[j] != c,
        decreases chars.len() - i,
    {
        if chars[i] == c {
            return true;
        }
        i = i + 1;
    }
    false
}

proof fn lemma_trim_start_skip(s: Seq<char>, i: int)
    requires
        0 <= i <= s.len(),
        forall|j: int| 0 <= j < i ==> is_whitespace_char(#[trigger] s[j]),
    ensures
        trim_start_spec(s) == trim_start_spec(s.subrange(i, s.len() as int)),
    decreases i,
{
    if i > 0 {
        assert(s.drop_first().subrange(i - 1, s.drop_first().len() as int) =~= s.subrange(
            i,
            s.len() as int,
        ));
        assert(is_whitespace_char(s[0]));
        lemma_trim_start_skip(s.drop_first(), i - 1);
    } else {
        assert(s.subrange(0, s.len() as int) =~= s);
    }
}

proof fn lemma_trim_end_skip(s: Seq<char>, i: int)
    requires
        0 <= i <= s.len(),
        forall|j: int| i <= j < s.len() ==> is_whitespace_char(#[trigger] s[j]),
    ensures
        trim_end_spec(s) == trim_end_spec(s.subrange(0, i)),
    decreases s.len() - i,
{
    if i < s.len() {
        assert(s.drop_last().subrange(0, i) =~= s.subrange(0, i));
        assert(is_whitespace_char(s[s.len() - 1]));
        lemma_trim_end_skip(s.drop_last(), i);
    } else {
        assert(s.subrange(0, s.len() as int) =~= s);
    }
}

/// The index of the first non-whitespace character of `chars[..to]`, or `to`.
fn first_non_whitespace(chars: &Vec<char>, to: usize) -> (i: usize)
    requires
        to <= chars@.len(),
    ensures
        i <= to,
        forall|j: int| 0 <= j < i ==> is_whitespace_char(#[trigger] chars@[j]),
        i < to ==> !is_whitespace_char(chars@[i as int]),
{
    let mut i: usize = 0;
    while i < to && char_is_whitespace(chars[i])
        invariant
            i <= to <= chars@.len(),
            forall|j: int| 0 <= j < i ==> is_whitespace_char(#[trigger] chars@[j]),
        decreases to - i,
    {
        i = i + 1;
    }
    i
}

/// The bounds `[start, end)` of `chars` with leading and trailing whitespace removed.
pub fn trim_bounds(chars: &Vec<char>) -> (r: (usize, usize))
    ensures
        r.0 <= r.1 <= chars@.len(),
        chars@.subrange(r.0 as int, r.1 as int) == trim_spec(chars@),
        chars@.subrange(r.0 as int, chars@.len() as int) == trim_start_spec(chars@),
{
    let start = first_non_whitespace(chars, chars.len());
    proof {
        lemma_trim_start_skip(chars@, start as int);
        let rest = chars@.subrange(start as int, chars@.len() as int);
        if start < chars.len() {
            assert(rest[0] == chars@[start as int]);
        } else {
            assert(rest.len() == 0);
        }
    }
    let mut end = chars.len();
    while end > start && char_is_whitespace(chars[end - 1])
        invariant
            start <= end <= chars@.len(),
            forall|j: int| end <= j < chars@.len() ==> is_whitespace_char(#[trigger] chars@[j]),
        decreases end - start,
    {
        end = end - 1;
    }
    proof {
        let rest = chars@.subrange(start as int, chars@.len() as int);
        lemma_trim_end_skip(rest, end - start);
        assert(rest.subrange(0, end - start) =~= chars@.subrange(start as int, end as int));
        let kept = chars@.subrange(start as int, end as int);
        if end > start {
            assert(kept.last() == chars@[end - 1]);
        }
    }
    (start, end)
}

/// `s` with leading and trailing whitespace removed.
pub fn trim(s: &str) -> (r: String)
    ensures
        r@ == trim_spec(s@),
{
    let chars = chars_of(s);
    let (start, end) = trim_bounds(&chars);
    string_from_range(&chars, start, end)
}

/// `s` with leading whitespace removed.
pub fn trim_start(s: &str) -> (r: String)
    ensures
        r@ == trim_start_spec(s@),
{
    let chars = chars_of(s);
    let (start, _end) = trim_bounds(&chars);
    string_from_range(&chars, start, chars.len())
}

/// The words of `s` joined by single spaces.
pub fn collapse_spaces(s: &str) -> (r: String)
    ensures
        r@ == collapse_whitespace(s@),
{
    let chars = chars_of(s);
    let mut out = String::new();
    let mut pending = false;
    let mut started = false;
    let mut i: usize = 0;
    assert(chars@.subrange(0, chars@.len() as int) =~= chars@);
    while i < chars.len()
        invariant
            i <= chars@.len(),
            chars@ == s@,
            out@ + squeeze(chars@.subrange(i as int, chars@.len() as int), pending, started)
                == collapse_whitespace(s@),
        decreases chars.len() - i,
    {
        let ghost rest = chars@.subrange(i as int, chars@.len() as int);
        assert(rest.drop_first() =~= chars@.subrange(i + 1, chars@.len() as int));
        assert(rest[0] == chars[i as int]);
        if char_is_whitespace(chars[i]) {
            pending = started;
        } else {
            let ghost before = out@;
            if pending {
                push_char(&mut out, ' ');
            }
            push_char(&mut out, chars[i]);
            assert(out@ =~= before + (if pending { seq![' '] } else { Seq::empty() }) + seq![
                chars@[i as int],
            ]);
            pending = false;
            started = true;
        }
        i = i + 1;
    }
    assert(chars@.subrange(chars@.len() as int, chars@.len() as int) =~= Seq::<char>::empty());
    assert(out@ + Seq::<char>::empty() =~= out@);
    assert(chars@.subrange(0, chars@.len() as int) =~= chars@);
    out
}

/// The decimal digit for `d`, which is below ten.
pub open spec fn digit_char(d: nat) -> char {
    (d + 48) as char
}

/// The decimal numeral for `n`, as `n.to_string()` writes it.
pub open spec fn decimal(n: nat) -> Seq<char>
    decreases n,
{
    if n < 10 {
        seq![digit_char(n)]
    } else {
        decimal(n / 10).push(digit_char(n % 10))
    }
}

/// The decimal numeral for `n`.
pub fn decimal_text(n: u64) -> (s: String)
    ensures
        s@ == decimal(n as nat),
    decreases n,
{
    let d: u8 = (n % 10) as u8;
    let c: char = (d + 48) as char;
    let mut s = if n < 10 {
        String::new()
    } else {
        decimal_text(n / 10)
    };
    push_char(&mut s, c);
    s
}

/// `s` with trailing whitespace removed.
pub fn trim_end(s: &str) -> (r: String)
    ensures
        r@ == trim_end_spec(s@),
{
    let chars = chars_of(s);
    let mut end = chars.len();
    while end > 0 && char_is_whitespace(chars[end - 1])
        invariant
            end <= chars@.len(),
            chars@ == s@,
            forall|j: int| end <= j < chars@.len() ==> is_whitespace_char(#[trigger] chars@[j]),
        decreases end,
    {
        end = end - 1;
    }
    proof {
        lemma_trim_end_skip(chars@, end as int);
        let kept = chars@.subrange(0, end as int);
        if end > 0 {
            assert(kept.last() == chars@[end - 1]);
        }
    }
    string_from_range(&chars, 0, end)
}

/// The text `format!("{:?}", s)` writes for a string: quoted, with escapes.
pub uninterp spec fn debug_text(s: Seq<char>) -> Seq<char>;

/// Calls the `Debug` formatting of `str`, which quotes and escapes the text.
#[verifier::external_body]
pub(crate) fn debug_quoted(s: &str) -> (r: String)
    ensures
        r@ == debug_text(s@),
{
    format!("{s:?}")
}

/// Whether `a` comes no later than `b` in text order: character by
/// character by code point, a prefix before the longer text. For UTF-8
/// text this is also the order of the bytes.
pub open spec fn text_le(a: Seq<char>, b: Seq<char>) -> bool
    decreases a.len(),
{
    if a.len() == 0 {
        true
    } else if b.len() == 0 {
        false
    } else if (a[0] as u32) < (b[0] as u32) {
        true
    } else if (a[0] as u32) > (b[0] as u32) {
        false
    } else {
        text_le(a.drop_first(), b.drop_first())
    }
}

/// Any two texts are ordered one way or the other.
pub proof fn lemma_text_le_total(a: Seq<char>, b: Seq<char>)
    ensures
        text_le(a, b) || text_le(b, a),
    decreases a.len(),
{
    if a.len() > 0 && b.len() > 0 && a[0] as u32 == b[0] as u32 {
        lemma_text_le_total(a.drop_first(), b.drop_first());
    }
}

/// Text order is transitive.
pub proof fn lemma_text_le_transitive(a: Seq<char>, b: Seq<char>, c: Seq<char>)
    requires
        text_le(a, b),
        text_le(b, c),
    ensures
        text_le(a, c),
    decreases a.len(),
{
    if a.len() > 0 && b.len() > 0 && c.len() > 0 && a[0] as u32 == b[0] as u32 && b[0] as u32 == c[0] as u32 {
        lemma_text_le_transitive(a.drop_first(), b.drop_first(), c.drop_first());
    }
}

/// Whether `a` comes no later than `b` in text order.
pub fn text_at_or_before(a: &str, b: &str) -> (r: bool)
    ensures
        r == text_le(a@, b@),
{
    let x = chars_of(a);
    let y = chars_of(b);
    let mut i: usize = 0;
    assert(a@.skip(0) =~= a@ && b@.skip(0) =~= b@);
    while i < x.len() && i < y.len()
        invariant
            x@ == a@,
            y@ == b@,
            i <= x@.len(),
            i <= y@.len(),
            text_le(a@, b@) == text_le(a@.skip(i as int), b@.skip(i as int)),
        decreases x.len() - i,
    {
        let c = x[i];
        let d = y[i];
        proof {
            assert(a@.skip(i as int)[0] == c && b@.skip(i as int)[0] == d);
            assert(a@.skip(i as int).drop_first() =~= a@.skip(i + 1));
            assert(b@.skip(i as int).drop_first() =~= b@.skip(i + 1));
        }
        if (c as u32) < (d as u32) {
            return true;
        }
        if (c as u32) > (d as u32) {
            return false;
        }
        i = i + 1;
    }
    i == x.len()
}

} // verus!
