//! Character-level text helpers shared by the formatting and parsing code:
//! decimal rendering of integers, and the substring / suffix predicates used
//! to select dataset files.
use vstd::prelude::*;
use vstd::seq_lib::lemma_flatten_concat;

verus! {

/// `String::push` appends one character at the end of the string.
pub assume_specification[ String::push ](s: &mut String, ch: char)
    ensures
        final(s)@ == old(s)@.push(ch),
;

/// The ASCII digit for `d` (meaningful for `d < 10`).
pub open spec fn digit_char(d: nat) -> char {
    (48 + d) as char
}

/// The decimal rendering of `n`: no sign, no leading zeros, `"0"` for zero.
pub open spec fn decimal(n: nat) -> Seq<char>
    decreases n,
{
    if n < 10 {
        seq![digit_char(n)]
    } else {
        decimal(n / 10).push(digit_char(n % 10))
    }
}

/// The ASCII digit character of a value below ten.
pub fn digit(d: u64) -> (c: char)
    requires
        d < 10,
    ensures
        c == digit_char(d as nat),
{
    let b: u8 = 48u8 + d as u8;
    b as char
}

/// Appends the decimal rendering of `n` to `s`.
pub fn push_decimal(s: &mut String, n: u64)
    ensures
        final(s)@ == old(s)@ + decimal(n as nat),
    decreases n,
{
    if n >= 10 {
        push_decimal(s, n / 10);
    }
    s.push(digit(n % 10));
    proof {
        if n < 10 {
            assert(old(s)@ + decimal(n as nat) =~= old(s)@.push(digit_char(n as nat)));
        } else {
            assert(old(s)@ + decimal(n as nat) =~= (old(s)@ + decimal((n / 10) as nat)).push(
                digit_char((n % 10) as nat),
            ));
        }
    }
}

/// The number that a string of ASCII digits spells, most significant digit
/// first.
pub open spec fn digits_value(s: Seq<char>) -> nat
    decreases s.len(),
{
    if s.len() == 0 {
        0
    } else {
        digits_value(s.drop_last()) * 10 + ((s.last() as int - 48) as nat)
    }
}

/// The decimal rendering of a number is a non-empty string of ASCII digits,
/// with no leading zero but for zero itself, that spells the number back.
pub proof fn law_decimal_reads_back(n: nat)
    ensures
        decimal(n).len() > 0,
        forall|k: int| 0 <= k < decimal(n).len() ==> '0' <= #[trigger] decimal(n)[k] <= '9',
        n > 0 ==> decimal(n)[0] != '0',
        digits_value(decimal(n)) == n,
    decreases n,
{
    if n >= 10 {
        law_decimal_reads_back(n / 10);
        let d = decimal(n);
        assert(d.drop_last() =~= decimal(n / 10));
        assert(d[0] == decimal(n / 10)[0]);
        assert(d.last() == digit_char(n % 10));
        assert((digit_char(n % 10) as int - 48) == n % 10);
        assert(digits_value(d) == digits_value(decimal(n / 10)) * 10 + n % 10);
        assert((n / 10) * 10 + n % 10 == n);
    } else {
        let d = decimal(n);
        assert(d.drop_last() =~= Seq::<char>::empty());
        assert((digit_char(n) as int - 48) == n);
        assert(digits_value(d.drop_last()) == 0);
        assert(digits_value(d) == n);
    }
}

/// Different numbers have different decimal renderings.
pub proof fn law_decimal_injective(a: nat, b: nat)
    ensures
        decimal(a) == decimal(b) ==> a == b,
{
    law_decimal_reads_back(a);
    law_decimal_reads_back(b);
}

/// The decimal rendering of `n` as a new string.
pub fn decimal_string(n: u64) -> (s: String)
    ensures
        s@ == decimal(n as nat),
{
    let mut s = String::new();
    push_decimal(&mut s, n);
    assert(s@ =~= decimal(n as nat));
    s
}

/// The characters of `s`, in order.
pub fn chars_of(s: &str) -> (v: Vec<char>)
    ensures
        v@ == s@,
{
    let n = s.unicode_len();
    let mut v: Vec<char> = Vec::new();
    let mut i: usize = 0;
    while i < n
        invariant
            n == s@.len(),
            i <= n,
            v@ == s@.subrange(0, i as int),
        decreases n - i,
    {
        v.push(s.get_char(i));
        i = i + 1;
        assert(v@ =~= s@.subrange(0, i as int));
    }
    assert(v@ =~= s@);
    v
}

/// `t` occurs in `s` at position `k`.
pub open spec fn occurs_at(s: Seq<char>, t: Seq<char>, k: int) -> bool {
    0 <= k && k + t.len() <= s.len() && s.subrange(k, k + t.len()) == t
}

/// `t` occurs somewhere in `s` (`str::contains` with a string pattern).
pub open spec fn contains_text(s: Seq<char>, t: Seq<char>) -> bool {
    exists|k: int| #[trigger] occurs_at(s, t, k)
}

/// `s` ends with `t` (`str::ends_with` with a string pattern).
pub open spec fn ends_with_text(s: Seq<char>, t: Seq<char>) -> bool {
    occurs_at(s, t, s.len() - t.len())
}

fn matches_at(s: &Vec<char>, t: &Vec<char>, k: usize) -> (r: bool)
    requires
        k + t@.len() <= s@.len(),
    ensures
        r == occurs_at(s@, t@, k as int),
{
    let _slen = s.len();
    let mut j: usize = 0;
    while j < t.len()
        invariant
            k + t@.len() <= s@.len(),
            s@.len() <= usize::MAX,
            j <= t@.len(),
            forall|m: int| 0 <= m < j ==> s@[k + m] == t@[m],
        decreases t@.len() - j,
    {
        if s[k + j] != t[j] {
            assert(s@.subrange(k as int, k + t@.len())[j as int] != t@[j as int]);
            return false;
        }
        j = j + 1;
    }
    assert(s@.subrange(k as int, k + t@.len()) =~= t@);
    true
}

/// Whether `needle` occurs in `haystack`.
pub fn contains_str(haystack: &str, needle: &str) -> (r: bool)
    ensures
        r == contains_text(haystack@, needle@),
{
    let s = chars_of(haystack);
    let t = chars_of(needle);
    if t.len() > s.len() {
        assert forall|k: int| !occurs_at(s@, t@, k) by {}
        return false;
    }
    let last = s.len() - t.len();
    let mut k: usize = 0;
    while k < last
        invariant
            s@ == haystack@,
            t@ == needle@,
            last + t@.len() == s@.len(),
            k <= last,
            forall|m: int| 0 <= m < k ==> !occurs_at(s@, t@, m),
        decreases last - k,
    {
        if matches_at(&s, &t, k) {
            return true;
        }
        k = k + 1;
    }
    if matches_at(&s, &t, last) {
        return true;
    }
    assert forall|m: int| !occurs_at(s@, t@, m) by {
        if 0 <= m < k {
        }
    }
    false
}

/// Whether `s` ends with `suffix`.
pub fn ends_with_str(s: &str, suffix: &str) -> (r: bool)
    ensures
        r == ends_with_text(s@, suffix@),
{
    let a = chars_of(s);
    let b = chars_of(suffix);
    if b.len() > a.len() {
        false
    } else {
        matches_at(&a, &b, a.len() - b.len())
    }
}

/// The Unicode `White_Space` property (Unicode `PropList.txt`).
pub open spec fn white_space(c: char) -> bool {
    let u = c as u32;
    ||| 0x09 <= u <= 0x0D
    ||| u == 0x20
    ||| u == 0x85
    ||| u == 0xA0
    ||| u == 0x1680
    ||| 0x2000 <= u <= 0x200A
    ||| u == 0x2028
    ||| u == 0x2029
    ||| u == 0x202F
    ||| u == 0x205F
    ||| u == 0x3000
}

/// `char::is_whitespace` holds exactly of the characters with the Unicode
/// `White_Space` property, as its documentation states.
pub assume_specification[ char::is_whitespace ](c: char) -> (b: bool)
    ensures
        b == white_space(c),
;

/// The token being built, closed off as a one-element list when not empty.
pub open spec fn flushed(cur: Seq<char>) -> Seq<Seq<char>> {
    if cur.len() == 0 {
        Seq::empty()
    } else {
        seq![cur]
    }
}

/// The whitespace-separated tokens of `rest`, the first one continuing `cur`.
pub open spec fn tokens_from(rest: Seq<char>, cur: Seq<char>) -> Seq<Seq<char>>
    decreases rest.len(),
{
    if rest.len() == 0 {
        flushed(cur)
    } else if white_space(rest[0]) {
        flushed(cur) + tokens_from(rest.drop_first(), Seq::empty())
    } else {
        tokens_from(rest.drop_first(), cur.push(rest[0]))
    }
}

/// The maximal runs of non-whitespace characters of `s`, in order
/// (`str::split_whitespace`).
pub open spec fn whitespace_tokens(s: Seq<char>) -> Seq<Seq<char>> {
    tokens_from(s, Seq::empty())
}

/// No character of `t` is whitespace.
pub open spec fn no_white_space(t: Seq<char>) -> bool {
    forall|k: int| 0 <= k < t.len() ==> !white_space(#[trigger] t[k])
}

proof fn lemma_tokens_from(rest: Seq<char>, cur: Seq<char>)
    requires
        no_white_space(cur),
    ensures
        forall|j: int|
            0 <= j < tokens_from(rest, cur).len() ==> #[trigger] tokens_from(rest, cur)[j].len() > 0
                && no_white_space(tokens_from(rest, cur)[j]),
    decreases rest.len(),
{
    if rest.len() == 0 {
        let all = tokens_from(rest, cur);
        assert(all == flushed(cur));
        assert forall|j: int| 0 <= j < all.len() implies #[trigger] all[j].len() > 0
            && no_white_space(all[j]) by {
            assert(all[j] == cur);
        }
    } else {
        if white_space(rest[0]) {
            let tail = tokens_from(rest.drop_first(), Seq::empty());
            lemma_tokens_from(rest.drop_first(), Seq::empty());
            let all = tokens_from(rest, cur);
            assert(all == flushed(cur) + tail);
            assert forall|j: int| 0 <= j < all.len() implies #[trigger] all[j].len() > 0
                && no_white_space(all[j]) by {
                if j < flushed(cur).len() {
                    assert(all[j] == cur);
                } else {
                    assert(all[j] == tail[j - flushed(cur).len()]);
                }
            }
        } else {
            let next = cur.push(rest[0]);
            assert(no_white_space(next)) by {
                assert forall|k: int| 0 <= k < next.len() implies !white_space(#[trigger] next[k]) by {
                    if k < cur.len() {
                        assert(next[k] == cur[k]);
                    }
                }
            }
            lemma_tokens_from(rest.drop_first(), next);
            assert(tokens_from(rest, cur) == tokens_from(rest.drop_first(), next));
        }
    }
}

/// Whitespace splitting gives no empty token and no token holding
/// whitespace.
pub proof fn law_tokens_are_nonempty_words(s: Seq<char>)
    ensures
        forall|j: int|
            0 <= j < whitespace_tokens(s).len() ==> #[trigger] whitespace_tokens(s)[j].len() > 0
                && no_white_space(whitespace_tokens(s)[j]),
{
    lemma_tokens_from(s, Seq::empty());
}

/// Whether `c` is not whitespace.
pub open spec fn non_white(c: char) -> bool {
    !white_space(c)
}

proof fn lemma_tokens_flatten(rest: Seq<char>, cur: Seq<char>)
    ensures
        tokens_from(rest, cur).flatten() == cur + rest.filter(|c: char| non_white(c)),
    decreases rest.len(),
{
    let p = |c: char| non_white(c);
    if rest.len() == 0 {
        assert(rest.filter(p) =~= Seq::<char>::empty()) by {
            reveal(Seq::filter);
        }
        if cur.len() > 0 {
            seq![cur].lemma_flatten_one_element();
        }
        assert(flushed(cur).flatten() =~= cur + rest.filter(p));
    } else {
        let r0 = rest[0];
        let tail = rest.drop_first();
        assert(rest =~= seq![r0] + tail);
        tail.lemma_filter_prepend(r0, p);
        if white_space(r0) {
            lemma_tokens_flatten(tail, Seq::empty());
            lemma_flatten_concat(flushed(cur), tokens_from(tail, Seq::empty()));
            if cur.len() > 0 {
                seq![cur].lemma_flatten_one_element();
            }
            assert(flushed(cur).flatten() =~= cur);
            assert(tokens_from(rest, cur).flatten() =~= cur + rest.filter(p));
        } else {
            lemma_tokens_flatten(tail, cur.push(r0));
            assert(tokens_from(rest, cur).flatten() =~= cur + rest.filter(p));
        }
    }
}

/// Whitespace splitting keeps every other character, in order: the tokens
/// put back together are the text with its whitespace taken out.
pub proof fn law_tokens_keep_the_text(s: Seq<char>)
    ensures
        whitespace_tokens(s).flatten() == s.filter(|c: char| non_white(c)),
{
    lemma_tokens_flatten(s, Seq::empty());
    assert(Seq::<char>::empty() + s.filter(|c: char| non_white(c)) =~= s.filter(|c: char| non_white(c)));
}

/// How many runs of non-whitespace characters begin in `s`, when the
/// character before `s` was whitespace or absent (`after_white`) or not.
pub open spec fn run_starts(s: Seq<char>, after_white: bool) -> nat
    decreases s.len(),
{
    if s.len() == 0 {
        0
    } else {
        (if non_white(s[0]) && after_white {
            1nat
        } else {
            0nat
        }) + run_starts(s.drop_first(), white_space(s[0]))
    }
}

proof fn lemma_tokens_count(rest: Seq<char>, cur: Seq<char>)
    ensures
        tokens_from(rest, cur).len() == (if cur.len() > 0 {
            1nat
        } else {
            0nat
        }) + run_starts(rest, cur.len() == 0),
    decreases rest.len(),
{
    if rest.len() > 0 {
        if white_space(rest[0]) {
            lemma_tokens_count(rest.drop_first(), Seq::empty());
        } else {
            lemma_tokens_count(rest.drop_first(), cur.push(rest[0]));
        }
    }
}

/// Whitespace splitting gives one token per run of non-whitespace
/// characters.
pub proof fn law_one_token_per_run(s: Seq<char>)
    ensures
        whitespace_tokens(s).len() == run_starts(s, true),
{
    lemma_tokens_count(s, Seq::empty());
}

/// The views of a list of strings.
pub open spec fn string_views(v: Seq<String>) -> Seq<Seq<char>> {
    v.map_values(|t: String| t@)
}

/// A string of the given characters.
pub fn string_from_chars(v: &Vec<char>) -> (s: String)
    ensures
        s@ == v@,
{
    let mut s = String::new();
    let mut i: usize = 0;
    while i < v.len()
        invariant
            i <= v@.len(),
            s@ == v@.subrange(0, i as int),
        decreases v@.len() - i,
    {
        s.push(v[i]);
        i = i + 1;
        assert(s@ =~= v@.subrange(0, i as int));
    }
    assert(s@ =~= v@);
    s
}

/// Splits `s` at Unicode whitespace, dropping empty pieces.
pub fn split_whitespace(s: &str) -> (tokens: Vec<String>)
    ensures
        string_views(tokens@) == whitespace_tokens(s@),
{
    let cs = chars_of(s);
    let mut tokens: Vec<String> = Vec::new();
    let mut cur: Vec<char> = Vec::new();
    let mut i: usize = 0;
    assert(cs@.skip(0) =~= cs@);
    assert(string_views(tokens@) =~= Seq::<Seq<char>>::empty());
    assert(cur@ =~= Seq::<char>::empty());
    while i < cs.len()
        invariant
            cs@ == s@,
            i <= cs@.len(),
            string_views(tokens@) + tokens_from(cs@.skip(i as int), cur@) == whitespace_tokens(s@),
        decreases cs@.len() - i,
    {
        let c = cs[i];
        let ghost rest = cs@.skip(i as int);
        let ghost before = string_views(tokens@);
        let ghost cur0 = cur@;
        assert(rest[0] == c);
        assert(rest.drop_first() =~= cs@.skip(i + 1));
        if c.is_whitespace() {
            if cur.len() > 0 {
                let t = string_from_chars(&cur);
                tokens.push(t);
                assert(string_views(tokens@) =~= before + flushed(cur0));
            } else {
                assert(string_views(tokens@) =~= before + flushed(cur0));
            }
            cur = Vec::new();
            assert(cur@ =~= Seq::<char>::empty());
            assert(string_views(tokens@) + tokens_from(cs@.skip(i + 1), cur@) =~= before + (
            flushed(cur0) + tokens_from(rest.drop_first(), Seq::empty())));
        } else {
            cur.push(c);
            assert(cur@ =~= cur0.push(rest[0]));
        }
        i = i + 1;
    }
    let ghost before = string_views(tokens@);
    assert(cs@.skip(i as int) =~= Seq::<char>::empty());
    if cur.len() > 0 {
        let t = string_from_chars(&cur);
        tokens.push(t);
    }
    assert(string_views(tokens@) =~= before + flushed(cur@));
    tokens
}

/// Whether `a` and `b` hold the same characters.
pub fn same_text(a: &str, b: &str) -> (r: bool)
    ensures
        r == (a@ == b@),
{
    let x = chars_of(a);
    let y = chars_of(b);
    if x.len() != y.len() {
        return false;
    }
    let r = matches_at(&x, &y, 0);
    proof {
        assert(x@.subrange(0, y@.len() as int) =~= x@);
    }
    r
}

/// The order of `String`s: `a` comes before `b` when at the first place
/// where they differ `a` has the smaller character (code point; for UTF-8
/// this is also the byte order), or when `a` is a proper prefix of `b`.
pub open spec fn text_lt(a: Seq<char>, b: Seq<char>) -> bool
    decreases a.len(),
{
    if a.len() == 0 {
        b.len() > 0
    } else if b.len() == 0 {
        false
    } else if a[0] != b[0] {
        (a[0] as int) < (b[0] as int)
    } else {
        text_lt(a.drop_first(), b.drop_first())
    }
}

/// `a` does not come after `b`.
pub open spec fn text_le(a: Seq<char>, b: Seq<char>) -> bool {
    !text_lt(b, a)
}

/// The texts are in order.
pub open spec fn texts_sorted(v: Seq<Seq<char>>) -> bool {
    forall|i: int, j: int| 0 <= i < j < v.len() ==> text_le(#[trigger] v[i], #[trigger] v[j])
}

proof fn lemma_text_lt_irreflexive(a: Seq<char>)
    ensures
        !text_lt(a, a),
    decreases a.len(),
{
    if a.len() > 0 {
        lemma_text_lt_irreflexive(a.drop_first());
    }
}

proof fn lemma_text_lt_transitive(a: Seq<char>, b: Seq<char>, c: Seq<char>)
    requires
        text_lt(a, b),
        text_lt(b, c),
    ensures
        text_lt(a, c),
    decreases a.len(),
{
    if a.len() > 0 && b.len() > 0 && c.len() > 0 {
        if a[0] == b[0] && b[0] == c[0] {
            lemma_text_lt_transitive(a.drop_first(), b.drop_first(), c.drop_first());
        }
    }
}

/// The texts compare as a total order: exactly one of `a < b`, `a == b`,
/// `b < a` holds, and `<` is transitive.
pub proof fn law_text_order_total(a: Seq<char>, b: Seq<char>, c: Seq<char>)
    ensures
        !text_lt(a, a),
        text_lt(a, b) && text_lt(b, c) ==> text_lt(a, c),
        text_lt(a, b) || a == b || text_lt(b, a),
        !(text_lt(a, b) && text_lt(b, a)),
    decreases a.len(),
{
    lemma_text_lt_irreflexive(a);
    if text_lt(a, b) && text_lt(b, c) {
        lemma_text_lt_transitive(a, b, c);
    }
    if text_lt(a, b) && text_lt(b, a) {
        lemma_text_lt_transitive(a, b, a);
    }
    if a.len() > 0 && b.len() > 0 && a[0] == b[0] {
        law_text_order_total(a.drop_first(), b.drop_first(), c);
        if a.drop_first() == b.drop_first() {
            assert(a =~= seq![a[0]] + a.drop_first());
            assert(b =~= seq![b[0]] + b.drop_first());
        }
    } else if a.len() == 0 && b.len() == 0 {
        assert(a =~= b);
    } else if a.len() > 0 && b.len() > 0 {
        assert((a[0] as int) != (b[0] as int));
    }
}

/// Whether `a` comes before `b`.
pub fn text_less(a: &Vec<char>, b: &Vec<char>) -> (r: bool)
    ensures
        r == text_lt(a@, b@),
{
    let mut i: usize = 0;
    assert(a@.skip(0) =~= a@);
    assert(b@.skip(0) =~= b@);
    while i < a.len() && i < b.len()
        invariant
            i <= a@.len(),
            i <= b@.len(),
            text_lt(a@.skip(i as int), b@.skip(i as int)) == text_lt(a@, b@),
        decreases a@.len() - i,
    {
        let ghost sa = a@.skip(i as int);
        let ghost sb = b@.skip(i as int);
        assert(sa[0] == a@[i as int]);
        assert(sb[0] == b@[i as int]);
        if a[i] != b[i] {
            return a[i] < b[i];
        }
        assert(sa.drop_first() =~= a@.skip(i + 1));
        assert(sb.drop_first() =~= b@.skip(i + 1));
        i = i + 1;
    }
    i == a.len() && i < b.len()
}

/// Sorts texts into `String` order (`<[String]>::sort`): the result holds the
/// same texts, each as often, in order.
pub fn sort_texts(v: Vec<String>) -> (r: Vec<String>)
    ensures
        texts_sorted(string_views(r@)),
        string_views(r@).to_multiset() == string_views(v@).to_multiset(),
{
    broadcast use vstd::seq_lib::to_multiset_insert;

    let mut out: Vec<String> = Vec::new();
    let mut keys: Vec<Vec<char>> = Vec::new();
    let mut n: usize = 0;
    assert(string_views(out@) =~= Seq::<Seq<char>>::empty());
    assert(string_views(v@).take(0) =~= Seq::<Seq<char>>::empty());
    while n < v.len()
        invariant
            n <= v@.len(),
            out@.len() == keys@.len(),
            forall|k: int| 0 <= k < keys@.len() ==> #[trigger] keys@[k]@ == out@[k]@,
            texts_sorted(string_views(out@)),
            string_views(out@).to_multiset() == string_views(v@).take(n as int).to_multiset(),
        decreases v@.len() - n,
    {
        let x = v[n].clone();
        let key = chars_of(x.as_str());
        let mut pos: usize = 0;
        let mut found = false;
        while pos < keys.len() && !found
            invariant
                out@.len() == keys@.len(),
                pos <= keys@.len(),
                forall|k: int| 0 <= k < keys@.len() ==> #[trigger] keys@[k]@ == out@[k]@,
                forall|k: int| 0 <= k < pos ==> !text_lt(key@, #[trigger] out@[k]@),
                found ==> pos < keys@.len() && text_lt(key@, out@[pos as int]@),
            decreases keys@.len() - pos + (if found { 0int } else { 1int }),
        {
            if text_less(&key, &keys[pos]) {
                found = true;
            } else {
                pos = pos + 1;
            }
        }
        let ghost before = string_views(out@);
        let ghost old_out = out@;
        let ghost old_keys = keys@;
        proof {
            assert forall|k: int| pos <= k < before.len() implies !text_lt(#[trigger] before[k], key@) by {
                lemma_text_lt_irreflexive(before[pos as int]);
                if text_lt(before[k], key@) {
                    lemma_text_lt_transitive(before[k], key@, before[pos as int]);
                    if k == pos {
                    } else {
                        assert(text_le(before[pos as int], before[k]));
                    }
                }
            }
        }
        out.insert(pos, x);
        keys.insert(pos, key);
        proof {
            let after = string_views(out@);
            assert(after =~= before.insert(pos as int, key@));
            vstd::seq_lib::to_multiset_insert(before, pos as int, key@);
            assert(key@ == string_views(v@)[n as int]);
            assert(string_views(v@).take(n + 1) =~= string_views(v@).take(n as int).push(key@));
            vstd::seq_lib::to_multiset_build(string_views(v@).take(n as int), key@);
            assert forall|i: int, j: int| 0 <= i < j < after.len() implies text_le(
                #[trigger] after[i],
                #[trigger] after[j],
            ) by {
                if j < pos {
                    assert(text_le(before[i], before[j]));
                } else if j == pos {
                    assert(after[i] == before[i]);
                } else if i < pos {
                    assert(after[j] == before[j - 1]);
                    assert(text_le(before[i], before[j - 1]));
                } else if i == pos {
                    assert(after[j] == before[j - 1]);
                } else {
                    assert(text_le(before[i - 1], before[j - 1]));
                }
            }
            assert forall|k: int| 0 <= k < keys@.len() implies #[trigger] keys@[k]@ == out@[k]@ by {
                if k < pos {
                    assert(keys@[k] == old_keys[k] && out@[k] == old_out[k]);
                } else if k > pos {
                    assert(keys@[k] == old_keys[k - 1] && out@[k] == old_out[k - 1]);
                }
            }
        }
        n = n + 1;
    }
    assert(string_views(v@).take(v@.len() as int) =~= string_views(v@));
    out
}

} // verus!
