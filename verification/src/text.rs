//! Text and list helpers with exact specifications over `Seq<char>`.

use vstd::prelude::*;

verus! {

/// The views of a list of items.
pub open spec fn views<T: View>(s: Seq<T>) -> Seq<T::V> {
    Seq::new(s.len(), |i: int| s[i]@)
}

/// The view of an optional item.
pub open spec fn opt_view<T: View>(o: Option<T>) -> Option<T::V> {
    match o {
        Some(x) => Some(x@),
        None => None,
    }
}

/// The text of an optional string.
pub open spec fn opt_text(o: Option<String>) -> Option<Seq<char>> {
    match o {
        Some(s) => Some(s@),
        None => None,
    }
}

pub broadcast proof fn views_push<T: View>(s: Seq<T>, x: T)
    ensures
        #[trigger] views(s.push(x)) == views(s).push(x@),
{
    assert(views(s.push(x)) =~= views(s).push(x@));
}

pub broadcast proof fn views_empty<T: View>(s: Seq<T>)
    requires
        s.len() == 0,
    ensures
        #[trigger] views(s) == Seq::<T::V>::empty(),
{
    assert(views(s) =~= Seq::<T::V>::empty());
}

pub broadcast proof fn views_add<T: View>(s: Seq<T>, t: Seq<T>)
    ensures
        #[trigger] views(s + t) == views(s) + views(t),
{
    assert(views(s + t) =~= views(s) + views(t));
}

pub broadcast proof fn views_update<T: View>(s: Seq<T>, i: int, x: T)
    requires
        0 <= i < s.len(),
    ensures
        #[trigger] views(s.update(i, x)) == views(s).update(i, x@),
{
    assert(views(s.update(i, x)) =~= views(s).update(i, x@));
}

pub broadcast group group_views {
    views_push,
    views_empty,
    views_add,
    views_update,
}

/// A value that can be copied with its view kept.
pub trait Replicate: View + Sized {
    fn replicate(&self) -> (r: Self)
        ensures
            r@ == self@,
    ;
}

/// A value that can be compared by its view.
pub trait Same: View + Sized {
    fn same(&self, other: &Self) -> (b: bool)
        ensures
            b == (self@ == other@),
    ;
}

impl Replicate for String {
    fn replicate(&self) -> (r: Self) {
        self.clone()
    }
}

impl Same for String {
    fn same(&self, other: &Self) -> (b: bool) {
        *self == *other
    }
}

pub fn replicate_vec<T: Replicate>(v: &Vec<T>) -> (r: Vec<T>)
    ensures
        views(r@) == views(v@),
        r@.len() == v@.len(),
{
    let mut r: Vec<T> = Vec::new();
    let mut i: usize = 0;
    while i < v.len()
        invariant
            i <= v@.len(),
            r@.len() == i,
            forall|k: int| 0 <= k < i ==> (#[trigger] r@[k])@ == v@[k]@,
        decreases v@.len() - i,
    {
        let x = v[i].replicate();
        r.push(x);
        i = i + 1;
    }
    assert(views(r@) =~= views(v@));
    r
}

pub fn replicate_opt<T: Replicate>(o: &Option<T>) -> (r: Option<T>)
    ensures
        opt_view(r) == opt_view(*o),
{
    match o {
        Some(x) => Some(x.replicate()),
        None => None,
    }
}

pub fn same_opt<T: Same>(a: &Option<T>, b: &Option<T>) -> (r: bool)
    ensures
        r == (opt_view(*a) == opt_view(*b)),
{
    match (a, b) {
        (Some(x), Some(y)) => x.same(y),
        (None, None) => true,
        _ => false,
    }
}

pub fn same_vec<T: Same>(a: &Vec<T>, b: &Vec<T>) -> (r: bool)
    ensures
        r == (views(a@) == views(b@)),
{
    if a.len() != b.len() {
        assert(views(a@).len() != views(b@).len());
        return false;
    }
    let mut i: usize = 0;
    while i < a.len()
        invariant
            i <= a@.len(),
            a@.len() == b@.len(),
            forall|k: int| 0 <= k < i ==> (#[trigger] a@[k])@ == b@[k]@,
        decreases a@.len() - i,
    {
        if !a[i].same(&b[i]) {
            assert(views(a@)[i as int] != views(b@)[i as int]);
            return false;
        }
        i = i + 1;
    }
    assert(views(a@) =~= views(b@));
    true
}

/// True when an item of `v` has the view of `x`.
pub fn vec_contains<T: Same>(v: &Vec<T>, x: &T) -> (b: bool)
    ensures
        b == views(v@).contains(x@),
{
    let mut i: usize = 0;
    while i < v.len()
        invariant
            i <= v@.len(),
            forall|k: int| 0 <= k < i ==> views(v@)[k] != x@,
        decreases v@.len() - i,
    {
        if v[i].same(x) {
            assert(views(v@)[i as int] == x@);
            return true;
        }
        i = i + 1;
    }
    false
}

/// Appends `x` unless an equal item is already there.
pub open spec fn push_new<A>(s: Seq<A>, x: A) -> Seq<A> {
    if s.contains(x) {
        s
    } else {
        s.push(x)
    }
}

pub fn vec_push_new<T: Same>(v: &mut Vec<T>, x: T)
    ensures
        views(final(v)@) == push_new(views(old(v)@), x@),
{
    broadcast use group_views;

    if !vec_contains(v, &x) {
        v.push(x);
    }
}

// ───────────────────────────── characters ─────────────────────────────

/// `str`'s equality compares the two texts.
#[verifier::external_body]
pub(crate) fn str_eq(a: &str, b: &str) -> (r: bool)
    ensures
        r == (a@ == b@),
{
    a == b
}

/// `String::push` appends the character to the end of the text.
pub assume_specification[ String::push ](s: &mut String, c: char)
    ensures
        final(s)@ == old(s)@.push(c),
;

/// The characters of a text.
pub fn chars_of(s: &str) -> (r: Vec<char>)
    ensures
        r@ == s@,
{
    let mut out: Vec<char> = Vec::new();
    for c in it: s.chars()
        invariant
            out@ == it.seq().take(it.index()),
            it.seq() == s@,
    {
        out.push(c);
    }
    out
}

/// The text of the characters from `from` up to `to`.
pub fn text_of(chars: &Vec<char>, from: usize, to: usize) -> (r: String)
    requires
        from <= to <= chars@.len(),
    ensures
        r@ == chars@.subrange(from as int, to as int),
{
    let mut out = String::new();
    let mut i: usize = from;
    while i < to
        invariant
            from <= i <= to <= chars@.len(),
            out@ == chars@.subrange(from as int, i as int),
        decreases to - i,
    {
        out.push(chars[i]);
        i = i + 1;
    }
    out
}

pub fn contains_char(s: &str, c: char) -> (b: bool)
    ensures
        b == s@.contains(c),
{
    let v = chars_of(s);
    let mut i: usize = 0;
    while i < v.len()
        invariant
            i <= v@.len(),
            v@ == s@,
            forall|k: int| 0 <= k < i ==> v@[k] != c,
        decreases v@.len() - i,
    {
        if v[i] == c {
            assert(s@[i as int] == c);
            return true;
        }
        i = i + 1;
    }
    false
}

/// True when `pat` occurs in `s`.
pub open spec fn contains_text(s: Seq<char>, pat: Seq<char>) -> bool {
    exists|i: int| #[trigger] occurs_at(s, pat, i)
}

/// True when `pat` occurs in `s` at position `i`.
pub open spec fn occurs_at(s: Seq<char>, pat: Seq<char>, i: int) -> bool {
    0 <= i <= s.len() - pat.len() && s.subrange(i, i + pat.len()) == pat
}

fn matches_at(v: &Vec<char>, p: &Vec<char>, at: usize) -> (b: bool)
    requires
        at + p@.len() <= v@.len(),
    ensures
        b == (v@.subrange(at as int, at + p@.len()) == p@),
{
    let n: usize = v.len();
    let mut j: usize = 0;
    while j < p.len()
        invariant
            j <= p@.len(),
            at + p@.len() <= n,
            n == v@.len(),
            forall|k: int| 0 <= k < j ==> v@[at + k] == p@[k],
        decreases p@.len() - j,
    {
        if v[at + j] != p[j] {
            assert(v@.subrange(at as int, at + p@.len())[j as int] != p@[j as int]);
            return false;
        }
        j = j + 1;
    }
    assert(v@.subrange(at as int, at + p@.len()) =~= p@);
    true
}

pub fn contains_str(s: &str, pat: &str) -> (b: bool)
    ensures
        b == contains_text(s@, pat@),
{
    let v = chars_of(s);
    let p = chars_of(pat);
    if p.len() > v.len() {
        return false;
    }
    let last: usize = v.len() - p.len();
    let mut i: usize = 0;
    while i <= last
        invariant
            v@ == s@,
            p@ == pat@,
            last == v@.len() - p@.len(),
            i <= last + 1,
            forall|k: int| 0 <= k < i ==> !#[trigger] occurs_at(s@, pat@, k),
        decreases last + 1 - i,
    {
        if matches_at(&v, &p, i) {
            assert(occurs_at(s@, pat@, i as int));
            return true;
        }
        if i == last {
            return false;
        }
        i = i + 1;
    }
    false
}

pub open spec fn starts_with_text(s: Seq<char>, pat: Seq<char>) -> bool {
    pat.len() <= s.len() && s.subrange(0, pat.len() as int) == pat
}

pub open spec fn ends_with_text(s: Seq<char>, pat: Seq<char>) -> bool {
    pat.len() <= s.len() && s.subrange(s.len() - pat.len(), s.len() as int) == pat
}

pub fn starts_with_str(s: &str, pat: &str) -> (b: bool)
    ensures
        b == starts_with_text(s@, pat@),
{
    let v = chars_of(s);
    let p = chars_of(pat);
    p.len() <= v.len() && matches_at(&v, &p, 0)
}

pub fn ends_with_str(s: &str, pat: &str) -> (b: bool)
    ensures
        b == ends_with_text(s@, pat@),
{
    let v = chars_of(s);
    let p = chars_of(pat);
    p.len() <= v.len() && matches_at(&v, &p, v.len() - p.len())
}

// ────────────────────────────── splitting ─────────────────────────────

/// The pieces of the first `n` characters between the separators.
pub open spec fn split_upto(s: Seq<char>, sep: char, n: int) -> Seq<Seq<char>>
    decreases n,
{
    if n <= 0 {
        seq![Seq::empty()]
    } else {
        let prev = split_upto(s, sep, n - 1);
        if s[n - 1] == sep {
            prev.push(Seq::empty())
        } else {
            prev.drop_last().push(prev.last().push(s[n - 1]))
        }
    }
}

/// The pieces of `s` between the separators; always at least one.
pub open spec fn split_text(s: Seq<char>, sep: char) -> Seq<Seq<char>> {
    split_upto(s, sep, s.len() as int)
}

pub proof fn split_upto_nonempty(s: Seq<char>, sep: char, n: int)
    ensures
        split_upto(s, sep, n).len() >= 1,
    decreases n,
{
    if n > 0 {
        split_upto_nonempty(s, sep, n - 1);
    }
}

pub fn split_str(s: &str, sep: char) -> (r: Vec<String>)
    ensures
        views(r@) == split_text(s@, sep),
        r@.len() >= 1,
{
    broadcast use group_views;

    let v = chars_of(s);
    let mut out: Vec<String> = Vec::new();
    let mut cur = String::new();
    let mut i: usize = 0;
    assert(views(out@).push(cur@) =~= split_upto(s@, sep, 0));
    while i < v.len()
        invariant
            i <= v@.len(),
            v@ == s@,
            views(out@).push(cur@) == split_upto(s@, sep, i as int),
        decreases v@.len() - i,
    {
        broadcast use group_views;

        let ghost prev = split_upto(s@, sep, i as int);
        assert(prev.drop_last() =~= views(out@));
        assert(prev.last() == cur@);
        if v[i] == sep {
            out.push(cur);
            cur = String::new();
        } else {
            cur.push(v[i]);
        }
        i = i + 1;
        assert(views(out@).push(cur@) =~= split_upto(s@, sep, i as int));
    }
    out.push(cur);
    out
}

/// What follows the last separator among the first `n` characters.
pub open spec fn tail_upto(s: Seq<char>, sep: char, n: int) -> Seq<char>
    decreases n,
{
    if n <= 0 || s[n - 1] == sep {
        Seq::empty()
    } else {
        tail_upto(s, sep, n - 1).push(s[n - 1])
    }
}

/// What follows the last separator; all of `s` when there is none.
pub open spec fn last_piece(s: Seq<char>, sep: char) -> Seq<char> {
    tail_upto(s, sep, s.len() as int)
}

pub fn last_piece_of(s: &str, sep: char) -> (r: String)
    ensures
        r@ == last_piece(s@, sep),
{
    let v = chars_of(s);
    let mut cur = String::new();
    let mut i: usize = 0;
    while i < v.len()
        invariant
            i <= v@.len(),
            v@ == s@,
            cur@ == tail_upto(s@, sep, i as int),
        decreases v@.len() - i,
    {
        if v[i] == sep {
            cur = String::new();
        } else {
            cur.push(v[i]);
        }
        i = i + 1;
    }
    cur
}

/// What stands in front of the last separator.
pub open spec fn first_pieces(s: Seq<char>, sep: char) -> Seq<char> {
    s.subrange(0, s.len() - last_piece(s, sep).len() - 1)
}

pub(crate) proof fn tail_is_suffix(s: Seq<char>, sep: char, n: int)
    requires
        0 <= n <= s.len(),
    ensures
        tail_upto(s, sep, n).len() <= n,
        tail_upto(s, sep, n).len() < n ==> s[n - tail_upto(s, sep, n).len() - 1] == sep,
        tail_upto(s, sep, n) == s.subrange(n - tail_upto(s, sep, n).len(), n),
        !tail_upto(s, sep, n).contains(sep),
    decreases n,
{
    let t = tail_upto(s, sep, n);
    if n <= 0 || s[n - 1] == sep {
        assert(t =~= s.subrange(n, n));
    } else {
        tail_is_suffix(s, sep, n - 1);
        assert(t =~= s.subrange(n - t.len(), n));
        if t.contains(sep) {
            let i = choose|i: int| 0 <= i < t.len() && t[i] == sep;
            assert(tail_upto(s, sep, n - 1)[i] == sep);
        }
    }
}

/// The text in front of the last separator and the text behind it.
pub fn split_last(s: &str, sep: char) -> (r: Option<(String, String)>)
    ensures
        match r {
            Some(p) => s@.contains(sep) && p.0@ == first_pieces(s@, sep) && p.1@ == last_piece(
                s@,
                sep,
            ),
            None => !s@.contains(sep),
        },
{
    let tail = last_piece_of(s, sep);
    let t = chars_of(tail.as_str());
    let v = chars_of(s);
    proof {
        tail_is_suffix(s@, sep, s@.len() as int);
    }
    if t.len() == v.len() {
        assert(last_piece(s@, sep) =~= s@);
        return None;
    }
    let head: usize = v.len() - t.len() - 1;
    assert(s@[head as int] == sep);
    Some((text_of(&v, 0, head), tail))
}

/// The texts joined with `sep` between them.
pub open spec fn joined_upto(parts: Seq<Seq<char>>, sep: Seq<char>, n: int) -> Seq<char>
    decreases n,
{
    if n <= 0 {
        Seq::empty()
    } else if n == 1 {
        parts[0]
    } else {
        joined_upto(parts, sep, n - 1) + sep + parts[n - 1]
    }
}

pub open spec fn joined(parts: Seq<Seq<char>>, sep: Seq<char>) -> Seq<char> {
    joined_upto(parts, sep, parts.len() as int)
}

pub fn join(parts: &Vec<String>, sep: &str) -> (r: String)
    ensures
        r@ == joined(views(parts@), sep@),
{
    let mut out = String::new();
    let mut i: usize = 0;
    while i < parts.len()
        invariant
            i <= parts@.len(),
            out@ == joined_upto(views(parts@), sep@, i as int),
        decreases parts@.len() - i,
    {
        if i > 0 {
            out.append(sep);
        }
        out.append(parts[i].as_str());
        i = i + 1;
        assert(i == 1 ==> out@ =~= parts@[0]@);
    }
    out
}

// ─────────────────────────── case and blanks ──────────────────────────

pub open spec fn lower_char(c: char) -> char {
    if 'A' <= c && c <= 'Z' {
        ((c as u32 + 32) as u32) as char
    } else {
        c
    }
}

pub open spec fn upper_char(c: char) -> char {
    if 'a' <= c && c <= 'z' {
        ((c as u32 - 32) as u32) as char
    } else {
        c
    }
}

pub open spec fn ascii_lower(s: Seq<char>) -> Seq<char> {
    Seq::new(s.len(), |i: int| lower_char(s[i]))
}

pub open spec fn ascii_upper(s: Seq<char>) -> Seq<char> {
    Seq::new(s.len(), |i: int| upper_char(s[i]))
}

fn to_lower_char(c: char) -> (r: char)
    ensures
        r == lower_char(c),
{
    if 'A' <= c && c <= 'Z' {
        let b: u8 = c as u8;
        (b + 32) as char
    } else {
        c
    }
}

fn to_upper_char(c: char) -> (r: char)
    ensures
        r == upper_char(c),
{
    if 'a' <= c && c <= 'z' {
        let b: u8 = c as u8;
        (b - 32) as char
    } else {
        c
    }
}

pub fn to_lower(s: &str) -> (r: String)
    ensures
        r@ == ascii_lower(s@),
{
    let v = chars_of(s);
    let mut out = String::new();
    let mut i: usize = 0;
    while i < v.len()
        invariant
            i <= v@.len(),
            v@ == s@,
            out@ == ascii_lower(s@).take(i as int),
        decreases v@.len() - i,
    {
        out.push(to_lower_char(v[i]));
        i = i + 1;
        assert(out@ =~= ascii_lower(s@).take(i as int));
    }
    out
}

pub fn to_upper(s: &str) -> (r: String)
    ensures
        r@ == ascii_upper(s@),
{
    let v = chars_of(s);
    let mut out = String::new();
    let mut i: usize = 0;
    while i < v.len()
        invariant
            i <= v@.len(),
            v@ == s@,
            out@ == ascii_upper(s@).take(i as int),
        decreases v@.len() - i,
    {
        out.push(to_upper_char(v[i]));
        i = i + 1;
        assert(out@ =~= ascii_upper(s@).take(i as int));
    }
    out
}

/// The characters with Unicode's `White_Space` property.
pub open spec fn is_blank(c: char) -> bool {
    ||| ('\u{9}' <= c && c <= '\u{d}')
    ||| c == '\u{20}'
    ||| c == '\u{85}'
    ||| c == '\u{a0}'
    ||| c == '\u{1680}'
    ||| ('\u{2000}' <= c && c <= '\u{200a}')
    ||| c == '\u{2028}'
    ||| c == '\u{2029}'
    ||| c == '\u{202f}'
    ||| c == '\u{205f}'
    ||| c == '\u{3000}'
}

pub fn blank(c: char) -> (b: bool)
    ensures
        b == is_blank(c),
{
    ('\u{9}' <= c && c <= '\u{d}') || c == '\u{20}' || c == '\u{85}' || c == '\u{a0}' || c
        == '\u{1680}' || ('\u{2000}' <= c && c <= '\u{200a}') || c == '\u{2028}' || c == '\u{2029}'
        || c == '\u{202f}' || c == '\u{205f}' || c == '\u{3000}'
}

/// How many blanks `s` has in front, counted from position `i`.
pub open spec fn first_solid(s: Seq<char>, i: int) -> int
    decreases s.len() - i,
{
    if 0 <= i < s.len() && is_blank(s[i]) {
        first_solid(s, i + 1)
    } else {
        i
    }
}

/// The position behind the last character before `j` that is not blank.
pub open spec fn last_solid(s: Seq<char>, i: int, j: int) -> int
    decreases j - i,
{
    if i < j && is_blank(s[j - 1]) {
        last_solid(s, i, j - 1)
    } else {
        j
    }
}

/// `s` without the blanks in front and behind.
pub open spec fn trimmed(s: Seq<char>) -> Seq<char> {
    let i = first_solid(s, 0);
    s.subrange(i, last_solid(s, i, s.len() as int))
}

pub fn trim(s: &str) -> (r: String)
    ensures
        r@ == trimmed(s@),
{
    let v = chars_of(s);
    let mut i: usize = 0;
    while i < v.len() && blank(v[i])
        invariant
            i <= v@.len(),
            v@ == s@,
            first_solid(s@, 0) == first_solid(s@, i as int),
        decreases v@.len() - i,
    {
        i = i + 1;
    }
    let mut j: usize = v.len();
    while i < j && blank(v[j - 1])
        invariant
            i <= j <= v@.len(),
            v@ == s@,
            last_solid(s@, i as int, s@.len() as int) == last_solid(s@, i as int, j as int),
        decreases j - i,
    {
        j = j - 1;
    }
    text_of(&v, i, j)
}

/// The words of the first `n` characters, one blank between them; a flag says
/// that a blank is owed before the next word.
pub open spec fn squeezed_upto(s: Seq<char>, n: int) -> (Seq<char>, bool)
    decreases n,
{
    if n <= 0 {
        (Seq::empty(), false)
    } else {
        let (out, gap) = squeezed_upto(s, n - 1);
        if is_blank(s[n - 1]) {
            (out, true)
        } else if gap && out.len() > 0 {
            (out.push(' ').push(s[n - 1]), false)
        } else {
            (out.push(s[n - 1]), false)
        }
    }
}

/// The words of `s` with single blanks between them.
pub open spec fn squeezed(s: Seq<char>) -> Seq<char> {
    squeezed_upto(s, s.len() as int).0
}

pub fn squeeze(s: &str) -> (r: String)
    ensures
        r@ == squeezed(s@),
{
    let v = chars_of(s);
    let mut out = String::new();
    let mut gap = false;
    let mut empty = true;
    let mut i: usize = 0;
    while i < v.len()
        invariant
            i <= v@.len(),
            v@ == s@,
            (out@, gap) == squeezed_upto(s@, i as int),
            empty == (out@.len() == 0),
        decreases v@.len() - i,
    {
        if blank(v[i]) {
            gap = true;
        } else {
            if gap && !empty {
                out.push(' ');
            }
            out.push(v[i]);
            gap = false;
            empty = false;
        }
        i = i + 1;
    }
    out
}

// ─────────────────────────────── numbers ──────────────────────────────

pub open spec fn digit(d: int) -> char {
    if d == 0 {
        '0'
    } else if d == 1 {
        '1'
    } else if d == 2 {
        '2'
    } else if d == 3 {
        '3'
    } else if d == 4 {
        '4'
    } else if d == 5 {
        '5'
    } else if d == 6 {
        '6'
    } else if d == 7 {
        '7'
    } else if d == 8 {
        '8'
    } else {
        '9'
    }
}

fn digit_char(d: u128) -> (c: char)
    ensures
        c == digit(d as int),
{
    if d == 0 {
        '0'
    } else if d == 1 {
        '1'
    } else if d == 2 {
        '2'
    } else if d == 3 {
        '3'
    } else if d == 4 {
        '4'
    } else if d == 5 {
        '5'
    } else if d == 6 {
        '6'
    } else if d == 7 {
        '7'
    } else if d == 8 {
        '8'
    } else {
        '9'
    }
}

/// The decimal numeral of `n`.
pub open spec fn decimal(n: nat) -> Seq<char>
    decreases n,
{
    if n < 10 {
        seq![digit(n as int)]
    } else {
        decimal(n / 10).push(digit((n % 10) as int))
    }
}

pub fn decimal_of(n: u128) -> (r: String)
    ensures
        r@ == decimal(n as nat),
    decreases n,
{
    if n < 10 {
        let mut s = String::new();
        s.push(digit_char(n));
        assert(s@ =~= decimal(n as nat));
        s
    } else {
        let mut s = decimal_of(n / 10);
        s.push(digit_char(n % 10));
        s
    }
}

// ──────────────────────────────── order ───────────────────────────────

/// The order of texts by their code points.
pub open spec fn text_lt(a: Seq<char>, b: Seq<char>) -> bool
    decreases a.len(),
{
    if b.len() == 0 {
        false
    } else if a.len() == 0 {
        true
    } else if a[0] == b[0] {
        text_lt(a.drop_first(), b.drop_first())
    } else {
        a[0] < b[0]
    }
}

pub fn str_lt(a: &str, b: &str) -> (r: bool)
    ensures
        r == text_lt(a@, b@),
{
    let x = chars_of(a);
    let y = chars_of(b);
    let mut i: usize = 0;
    assert(x@.skip(0) =~= x@);
    assert(y@.skip(0) =~= y@);
    while i < x.len() && i < y.len() && x[i] == y[i]
        invariant
            x@ == a@,
            y@ == b@,
            i <= x@.len(),
            i <= y@.len(),
            text_lt(a@, b@) == text_lt(x@.skip(i as int), y@.skip(i as int)),
        decreases x@.len() - i,
    {
        assert(x@.skip(i as int).drop_first() =~= x@.skip(i + 1));
        assert(y@.skip(i as int).drop_first() =~= y@.skip(i + 1));
        i = i + 1;
    }
    if i >= y.len() {
        false
    } else if i >= x.len() {
        true
    } else {
        x[i] < y[i]
    }
}

/// A text is not before itself.
pub proof fn text_lt_irreflexive(a: Seq<char>)
    ensures
        !text_lt(a, a),
    decreases a.len(),
{
    if a.len() > 0 {
        text_lt_irreflexive(a.drop_first());
    }
}

/// Of two different texts one is before the other.
pub proof fn text_lt_total(a: Seq<char>, b: Seq<char>)
    ensures
        a == b || text_lt(a, b) || text_lt(b, a),
    decreases a.len(),
{
    if a.len() > 0 && b.len() > 0 {
        if a[0] == b[0] {
            text_lt_total(a.drop_first(), b.drop_first());
            if a.drop_first() == b.drop_first() {
                assert(a =~= seq![a[0]] + a.drop_first());
                assert(b =~= seq![b[0]] + b.drop_first());
            }
        }
    } else if a.len() == 0 && b.len() == 0 {
        assert(a =~= b);
    }
}

/// The order of texts is transitive.
pub proof fn text_lt_transitive(a: Seq<char>, b: Seq<char>, c: Seq<char>)
    requires
        text_lt(a, b),
        text_lt(b, c),
    ensures
        text_lt(a, c),
    decreases a.len(),
{
    if a.len() > 0 {
        if a[0] == b[0] && b[0] == c[0] {
            text_lt_transitive(a.drop_first(), b.drop_first(), c.drop_first());
        }
    }
}

// ──────────────────────────── laws of splitting ───────────────────────

proof fn split_of_plain(s: Seq<char>, sep: char, n: int)
    requires
        0 <= n <= s.len(),
        !s.contains(sep),
    ensures
        split_upto(s, sep, n) == seq![s.subrange(0, n)],
    decreases n,
{
    if n <= 0 {
        assert(s.subrange(0, n) =~= Seq::<char>::empty());
        assert(split_upto(s, sep, n) =~= seq![s.subrange(0, n)]);
    } else {
        split_of_plain(s, sep, n - 1);
        assert(s.contains(s[n - 1]));
        assert(s.subrange(0, n) =~= s.subrange(0, n - 1).push(s[n - 1]));
        assert(split_upto(s, sep, n) =~= seq![s.subrange(0, n)]);
    }
}

proof fn split_prefix(s: Seq<char>, t: Seq<char>, sep: char, n: int)
    requires
        0 <= n <= s.len(),
        n <= t.len(),
        s.subrange(0, n) == t.subrange(0, n),
    ensures
        split_upto(s, sep, n) == split_upto(t, sep, n),
    decreases n,
{
    if n > 0 {
        assert(s.subrange(0, n)[n - 1] == s[n - 1]);
        assert(t.subrange(0, n)[n - 1] == t[n - 1]);
        assert(s.subrange(0, n - 1) =~= s.subrange(0, n).subrange(0, n - 1));
        assert(t.subrange(0, n - 1) =~= t.subrange(0, n).subrange(0, n - 1));
        split_prefix(s, t, sep, n - 1);
    }
}

proof fn split_behind(a: Seq<char>, t: Seq<char>, sep: char, k: int)
    requires
        !a.contains(sep),
        0 <= k <= t.len(),
    ensures
        split_upto(a + seq![sep] + t, sep, a.len() + 1 + k) == seq![a] + split_upto(t, sep, k),
    decreases k,
{
    let x = a + seq![sep] + t;
    let n = a.len() + 1 + k;
    if k == 0 {
        assert(x.subrange(0, a.len() as int) =~= a);
        assert(a.subrange(0, a.len() as int) =~= a);
        split_prefix(x, a, sep, a.len() as int);
        split_of_plain(a, sep, a.len() as int);
        assert(x[a.len() as int] == sep);
        assert(split_upto(x, sep, n) =~= seq![a] + split_upto(t, sep, 0));
    } else {
        split_behind(a, t, sep, k - 1);
        split_upto_nonempty(t, sep, k - 1);
        let p = split_upto(t, sep, k - 1);
        assert(x[n - 1] == t[k - 1]);
        assert((seq![a] + p).last() == p.last());
        assert((seq![a] + p).drop_last() =~= seq![a] + p.drop_last());
        assert(split_upto(x, sep, n) =~= seq![a] + split_upto(t, sep, k));
    }
}

/// A text in front of a separator, when it holds none itself, is a piece of
/// its own, and what follows is split alone.
pub proof fn split_in_front(a: Seq<char>, t: Seq<char>, sep: char)
    requires
        !a.contains(sep),
    ensures
        split_text(a + seq![sep] + t, sep) == seq![a] + split_text(t, sep),
{
    split_behind(a, t, sep, t.len() as int);
    assert((a + seq![sep] + t).len() == a.len() + 1 + t.len());
}

/// A text without separators is one piece.
pub proof fn split_whole(s: Seq<char>, sep: char)
    requires
        !s.contains(sep),
    ensures
        split_text(s, sep) == seq![s],
{
    split_of_plain(s, sep, s.len() as int);
    assert(s.subrange(0, s.len() as int) =~= s);
}

proof fn joined_prefix(a: Seq<Seq<char>>, b: Seq<Seq<char>>, sep: Seq<char>, n: int)
    requires
        0 <= n <= a.len(),
        n <= b.len(),
        forall|i: int| 0 <= i < n ==> a[i] == b[i],
    ensures
        joined_upto(a, sep, n) == joined_upto(b, sep, n),
    decreases n,
{
    if n > 0 {
        joined_prefix(a, b, sep, n - 1);
    }
}

proof fn joined_pieces(s: Seq<char>, sep: char, n: int)
    requires
        0 <= n <= s.len(),
    ensures
        joined(split_upto(s, sep, n), seq![sep]) == s.subrange(0, n),
    decreases n,
{
    let p = split_upto(s, sep, n);
    let glue = seq![sep];
    if n <= 0 {
        assert(s.subrange(0, n) =~= Seq::<char>::empty());
        assert(p.len() == 1);
        assert(joined(p, glue) =~= s.subrange(0, n));
    } else {
        joined_pieces(s, sep, n - 1);
        split_upto_nonempty(s, sep, n - 1);
        let q = split_upto(s, sep, n - 1);
        let k = q.len() as int;
        assert(s.subrange(0, n) =~= s.subrange(0, n - 1).push(s[n - 1]));
        if s[n - 1] == sep {
            assert(p =~= q.push(Seq::<char>::empty()));
            joined_prefix(p, q, glue, k);
            assert(joined(p, glue) =~= joined(q, glue) + glue + Seq::<char>::empty());
            assert(joined(p, glue) =~= s.subrange(0, n));
        } else {
            assert(p =~= q.drop_last().push(q.last().push(s[n - 1])));
            joined_prefix(p, q, glue, k - 1);
            if k == 1 {
                assert(joined(p, glue) =~= q[0].push(s[n - 1]));
            } else {
                assert(joined(q, glue) =~= joined_upto(q, glue, k - 1) + glue + q[k - 1]);
                assert(joined(p, glue) =~= joined_upto(q, glue, k - 1) + glue + q[k - 1].push(
                    s[n - 1],
                ));
            }
            assert(joined(p, glue) =~= s.subrange(0, n));
        }
    }
}

/// The pieces of a text, joined with the separator, are the text.
pub proof fn split_then_join(s: Seq<char>, sep: char)
    ensures
        joined(split_text(s, sep), seq![sep]) == s,
{
    joined_pieces(s, sep, s.len() as int);
    assert(s.subrange(0, s.len() as int) =~= s);
}

} // verus!
