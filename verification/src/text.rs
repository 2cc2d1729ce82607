use vstd::prelude::*;

verus! {

broadcast use vstd::seq_lib::group_seq_properties;

/// A `String` holding the characters of `s`.
pub fn string_from(s: &str) -> (r: String)
    ensures
        r@ == s@,
{
    s.to_owned()
}

/// `a` followed by `b`.
pub fn concat_str(a: String, b: &str) -> (r: String)
    ensures
        r@ == a@ + b@,
{
    let mut a = a;
    a.append(b);
    a
}

/// Appends one character to a string (`String::push`).
#[verifier::external_body]
pub(crate) fn push_char(s: &mut String, c: char)
    ensures
        final(s)@ == old(s)@.push(c),
{
    s.push(c);
}

/// Unicode `White_Space`, the property behind `char::is_whitespace`.
pub open spec fn is_white_space(c: char) -> bool {
    ||| ('\u{9}' <= c && c <= '\u{d}')
    ||| c == ' '
    ||| c == '\u{85}'
    ||| c == '\u{a0}'
    ||| c == '\u{1680}'
    ||| ('\u{2000}' <= c && c <= '\u{200a}')
    ||| c == '\u{2028}'
    ||| c == '\u{2029}'
    ||| c == '\u{202f}'
    ||| c == '\u{205f}'
    ||| c == '\u{3000}'
}

/// Decides `is_white_space`.
pub fn is_whitespace(c: char) -> (b: bool)
    ensures
        b == is_white_space(c),
{
    ('\u{9}' <= c && c <= '\u{d}') || c == ' ' || c == '\u{85}' || c == '\u{a0}' || c == '\u{1680}'
        || ('\u{2000}' <= c && c <= '\u{200a}') || c == '\u{2028}' || c == '\u{2029}' || c
        == '\u{202f}' || c == '\u{205f}' || c == '\u{3000}'
}

/// Scanning `s` from the left: the words completed so far and the word in progress.
pub open spec fn split_state(s: Seq<char>) -> (Seq<Seq<char>>, Seq<char>)
    decreases s.len(),
{
    if s.len() == 0 {
        (Seq::empty(), Seq::empty())
    } else {
        let (done, cur) = split_state(s.drop_last());
        let c = s.last();
        if is_white_space(c) {
            if cur.len() > 0 {
                (done.push(cur), Seq::empty())
            } else {
                (done, cur)
            }
        } else {
            (done, cur.push(c))
        }
    }
}

/// The maximal runs of non-whitespace characters of `s`, in order
/// (`str::split_whitespace`).
pub open spec fn split_whitespace(s: Seq<char>) -> Seq<Seq<char>> {
    let (done, cur) = split_state(s);
    if cur.len() > 0 {
        done.push(cur)
    } else {
        done
    }
}

/// The views of a vector of strings.
pub open spec fn views(v: Seq<String>) -> Seq<Seq<char>> {
    v.map_values(|s: String| s@)
}

/// Splits `s` into its whitespace-separated words.
pub fn split_whitespace_words(s: &str) -> (words: Vec<String>)
    ensures
        views(words@) == split_whitespace(s@),
{
    let n = s.unicode_len();
    let mut words: Vec<String> = Vec::new();
    let mut cur = String::new();
    let mut i: usize = 0;
    while i < n
        invariant
            n == s@.len(),
            i <= n,
            (views(words@), cur@) == split_state(s@.take(i as int)),
        decreases n - i,
    {
        let c = s.get_char(i);
        assert(s@.take(i + 1).drop_last() =~= s@.take(i as int));
        if is_whitespace(c) {
            if cur.unicode_len_of() > 0 {
                let w = cur;
                words.push(w);
                cur = String::new();
                assert(views(words@) =~= split_state(s@.take(i as int)).0.push(w@));
            }
        } else {
            push_char(&mut cur, c);
        }
        i = i + 1;
    }
    assert(s@.take(n as int) =~= s@);
    if cur.unicode_len_of() > 0 {
        let w = cur;
        words.push(w);
        assert(views(words@) =~= split_state(s@).0.push(w@));
    }
    words
}

/// Character length helper for `String`.
pub trait StringCharLen {
    fn unicode_len_of(&self) -> usize;
}

impl StringCharLen for String {
    fn unicode_len_of(&self) -> (n: usize)
        ensures
            n == self@.len(),
    {
        self.as_str().unicode_len()
    }
}

/// `ws` joined with `sep` between consecutive items.
pub open spec fn join(ws: Seq<Seq<char>>, sep: Seq<char>) -> Seq<char>
    decreases ws.len(),
{
    if ws.len() == 0 {
        Seq::empty()
    } else if ws.len() == 1 {
        ws[0]
    } else {
        join(ws.drop_last(), sep) + sep + ws.last()
    }
}

/// A word: non-empty and free of whitespace.
pub open spec fn is_word(w: Seq<char>) -> bool {
    w.len() > 0 && forall|i: int| 0 <= i < w.len() ==> !is_white_space(#[trigger] w[i])
}

/// Appending whitespace-free characters extends the word in progress.
pub proof fn lemma_split_state_append_word(p: Seq<char>, w: Seq<char>)
    requires
        forall|i: int| 0 <= i < w.len() ==> !is_white_space(#[trigger] w[i]),
    ensures
        split_state(p + w) == (split_state(p).0, split_state(p).1 + w),
    decreases w.len(),
{
    if w.len() == 0 {
        assert(p + w =~= p);
        assert(split_state(p).1 + w =~= split_state(p).1);
    } else {
        let w2 = w.drop_last();
        lemma_split_state_append_word(p, w2);
        assert((p + w).drop_last() =~= p + w2);
        assert((p + w).last() == w.last());
        assert(split_state(p).1 + w2 + seq![w.last()] =~= split_state(p).1 + w);
        assert((split_state(p).1 + w2).push(w.last()) =~= split_state(p).1 + w);
    }
}

/// Splitting a space-joined list of words gives back the words.
pub proof fn lemma_split_join(ws: Seq<Seq<char>>)
    requires
        forall|i: int| 0 <= i < ws.len() ==> is_word(#[trigger] ws[i]),
    ensures
        split_whitespace(join(ws, seq![' '])) == ws,
{
    if ws.len() == 0 {
        assert(split_state(Seq::<char>::empty()) == (Seq::<Seq<char>>::empty(), Seq::<char>::empty()));
    } else {
        lemma_split_state_join(ws);
        assert(ws.last() == ws[ws.len() - 1]);
        assert(is_word(ws[ws.len() - 1]));
        assert(ws.drop_last().push(ws.last()) =~= ws);
    }
}

/// The scan state at the end of a space-joined non-empty list of words.
proof fn lemma_split_state_join(ws: Seq<Seq<char>>)
    requires
        ws.len() > 0,
        forall|i: int| 0 <= i < ws.len() ==> is_word(#[trigger] ws[i]),
    ensures
        split_state(join(ws, seq![' '])) == (ws.drop_last(), ws.last()),
    decreases ws.len(),
{
    let sp = seq![' '];
    if ws.len() == 1 {
        assert(is_word(ws[0]));
        lemma_split_state_append_word(Seq::empty(), ws[0]);
        assert(Seq::<char>::empty() + ws[0] =~= ws[0]);
        assert(split_state(Seq::<char>::empty()) == (Seq::<Seq<char>>::empty(), Seq::<char>::empty()));
        assert(Seq::<char>::empty() + ws[0] =~= ws[0]);
        assert(ws.drop_last() =~= Seq::<Seq<char>>::empty());
    } else {
        let front = ws.drop_last();
        assert forall|i: int| 0 <= i < front.len() implies is_word(#[trigger] front[i]) by {
            assert(front[i] == ws[i]);
        }
        lemma_split_state_join(front);
        let p = join(front, sp);
        let q = p + sp;
        assert(q.drop_last() =~= p);
        assert(q.last() == ' ');
        assert(is_word(front[front.len() - 1]));
        assert(front.last() == front[front.len() - 1]);
        assert(split_state(q) == (front.drop_last().push(front.last()), Seq::<char>::empty()));
        assert(front.drop_last().push(front.last()) =~= front);
        assert(is_word(ws[ws.len() - 1]));
        assert(ws.last() == ws[ws.len() - 1]);
        lemma_split_state_append_word(q, ws.last());
        assert(Seq::<char>::empty() + ws.last() =~= ws.last());
        assert(join(ws, sp) == q + ws.last());
    }
}

/// The character of a decimal digit.
pub open spec fn digit_char(d: int) -> char {
    (48 + d) as char
}

/// The decimal digits of a natural number, most significant first.
pub open spec fn decimal_digits(n: nat) -> Seq<char>
    decreases n,
{
    if n < 10 {
        seq![digit_char(n as int)]
    } else {
        decimal_digits(n / 10).push(digit_char((n % 10) as int))
    }
}

/// The decimal form of an integer, as `Display` writes it: a `-` before the
/// digits of a negative number.
pub open spec fn decimal(n: int) -> Seq<char> {
    if n < 0 {
        seq!['-'] + decimal_digits((-n) as nat)
    } else {
        decimal_digits(n as nat)
    }
}

/// The decimal digits of `m`.
fn u64_digits(m: u64) -> (s: String)
    ensures
        s@ == decimal_digits(m as nat),
{
    let mut rev: Vec<char> = Vec::new();
    let mut k: u64 = m;
    loop
        invariant_except_break
            k > 0 || rev@.len() == 0,
            decimal_digits(m as nat) == decimal_digits(k as nat) + rev@.reverse(),
        ensures
            decimal_digits(m as nat) == rev@.reverse(),
        decreases k,
    {
        let d = (k % 10) as u8;
        let c = (48u8 + d) as char;
        assert(c == digit_char((k % 10) as int));
        let ghost old_rev = rev@;
        rev.push(c);
        assert(rev@.reverse() =~= seq![c] + old_rev.reverse());
        if k < 10 {
            assert(decimal_digits(k as nat) == seq![c]);
            break;
        }
        assert(decimal_digits(k as nat) == decimal_digits((k / 10) as nat).push(c));
        assert(decimal_digits((k / 10) as nat).push(c) + old_rev.reverse() =~= decimal_digits(
            (k / 10) as nat,
        ) + rev@.reverse());
        k = k / 10;
    }
    let mut s = String::new();
    let mut j: usize = rev.len();
    while j > 0
        invariant
            j <= rev@.len(),
            s@ =~= rev@.reverse().take(rev@.len() - j),
        decreases j,
    {
        j = j - 1;
        push_char(&mut s, rev[j]);
        assert(rev@.reverse().take(rev@.len() - j) =~= rev@.reverse().take(rev@.len() - j - 1).push(
            rev@[j as int],
        ));
    }
    assert(rev@.reverse().take(rev@.len() as int) =~= rev@.reverse());
    s
}

/// The decimal form of `n` (what `format!("{}", n)` writes).
pub fn i64_to_decimal(n: i64) -> (s: String)
    ensures
        s@ == decimal(n as int),
{
    if n < 0 {
        let m: u64 = ((-(n + 1)) as u64) + 1;
        let digits = u64_digits(m);
        let mut s = String::new();
        push_char(&mut s, '-');
        let s = concat_str(s, digits.as_str());
        assert(s@ =~= seq!['-'] + decimal_digits(m as nat));
        s
    } else {
        u64_digits(n as u64)
    }
}

/// `s` without its trailing characters equal to `c` (`str::trim_end_matches`
/// with a single character).
pub open spec fn trim_end_char(s: Seq<char>, c: char) -> Seq<char>
    decreases s.len(),
{
    if s.len() > 0 && s.last() == c {
        trim_end_char(s.drop_last(), c)
    } else {
        s
    }
}

/// `s` with its trailing `c` characters removed.
pub fn trim_end_matches_char(s: &str, c: char) -> (r: String)
    ensures
        r@ == trim_end_char(s@, c),
{
    let mut n = s.unicode_len();
    assert(s@.take(n as int) =~= s@);
    while n > 0 && s.get_char(n - 1) == c
        invariant
            n <= s@.len(),
            trim_end_char(s@.take(n as int), c) == trim_end_char(s@, c),
        decreases n,
    {
        assert(s@.take(n as int).drop_last() =~= s@.take(n - 1));
        n = n - 1;
    }
    let t = s.substring_char(0, n);
    assert(t@ =~= s@.take(n as int));
    string_from(t)
}

/// Whether `s` begins with `prefix` (`str::starts_with`).
pub fn starts_with(s: &str, prefix: &str) -> (b: bool)
    ensures
        b == prefix@.is_prefix_of(s@),
{
    matches_at(s, 0, prefix)
}

/// Whether `pat` occurs in `s` at character position `at`.
pub fn matches_at(s: &str, at: usize, pat: &str) -> (b: bool)
    requires
        at <= s@.len(),
    ensures
        b == pat@.is_prefix_of(s@.skip(at as int)),
{
    let n = s.unicode_len();
    let m = pat.unicode_len();
    if m > n - at {
        return false;
    }
    let mut k: usize = 0;
    while k < m
        invariant
            n == s@.len(),
            m == pat@.len(),
            at <= n,
            m <= n - at,
            k <= m,
            forall|j: int| 0 <= j < k ==> #[trigger] pat@[j] == s@[at + j],
        decreases m - k,
    {
        if pat.get_char(k) != s.get_char(at + k) {
            assert(pat@[k as int] != s@.skip(at as int)[k as int]);
            return false;
        }
        k = k + 1;
    }
    assert(pat@ =~= s@.skip(at as int).subrange(0, m as int));
    true
}

/// `s` with every match of `pat` replaced by `rep`, matches taken from the
/// left without overlap (`str::replace`).
pub open spec fn replace_all(s: Seq<char>, pat: Seq<char>, rep: Seq<char>) -> Seq<char>
    decreases s.len(),
{
    if s.len() == 0 {
        s
    } else if pat.len() > 0 && pat.is_prefix_of(s) {
        rep + replace_all(s.skip(pat.len() as int), pat, rep)
    } else {
        seq![s[0]] + replace_all(s.skip(1), pat, rep)
    }
}

/// Replaces every match of a non-empty `pat` in `s` by `rep`.
pub fn replace_str(s: &str, pat: &str, rep: &str) -> (r: String)
    requires
        pat@.len() > 0,
    ensures
        r@ == replace_all(s@, pat@, rep@),
{
    let n = s.unicode_len();
    let m = pat.unicode_len();
    let mut out = String::new();
    let mut i: usize = 0;
    assert(s@.skip(0) =~= s@);
    while i < n
        invariant
            n == s@.len(),
            m == pat@.len(),
            m > 0,
            i <= n,
            out@ + replace_all(s@.skip(i as int), pat@, rep@) == replace_all(s@, pat@, rep@),
        decreases n - i,
    {
        let ghost rest = s@.skip(i as int);
        if matches_at(s, i, pat) {
            assert(rest.skip(m as int) =~= s@.skip(i + m));
            assert(out@ + rep@ + replace_all(rest.skip(m as int), pat@, rep@) =~= out@ + (rep@
                + replace_all(rest.skip(m as int), pat@, rep@)));
            out = concat_str(out, rep);
            i = i + m;
        } else {
            let c = s.get_char(i);
            assert(rest[0] == c);
            assert(rest.skip(1) =~= s@.skip(i + 1));
            assert(out@.push(c) + replace_all(rest.skip(1), pat@, rep@) =~= out@ + (seq![c]
                + replace_all(rest.skip(1), pat@, rep@)));
            push_char(&mut out, c);
            i = i + 1;
        }
    }
    assert(s@.skip(n as int) =~= Seq::<char>::empty());
    assert(out@ + Seq::<char>::empty() =~= out@);
    out
}

} // verus!
