//! The line-oriented wire format: bytes, whitespace-separated tokens, lines.

use vstd::prelude::*;

verus! {

/// The bytes of an ASCII text, one per character.
pub open spec fn ascii(s: Seq<char>) -> Seq<u8> {
    Seq::new(s.len(), |i: int| s[i] as u8)
}

/// The bytes of an ASCII string literal.
pub fn lit(s: &'static str) -> (b: &'static [u8])
    requires
        vstd::string::is_ascii(s),
    ensures
        b@ == ascii(s@),
{
    let b = s.as_bytes();
    b
}

/// Whether two byte strings hold the same bytes.
pub fn bytes_eq(a: &[u8], b: &[u8]) -> (r: bool)
    ensures
        r == (a@ == b@),
{
    if a.len() != b.len() {
        return false;
    }
    let mut i: usize = 0;
    while i < a.len()
        invariant
            i <= a.len(),
            a.len() == b.len(),
            forall|k: int| 0 <= k < i ==> a@[k] == b@[k],
        decreases a.len() - i,
    {
        if a[i] != b[i] {
            return false;
        }
        i += 1;
    }
    assert(a@ =~= b@);
    true
}

/// An owned copy of a byte string.
pub fn to_bytes(a: &[u8]) -> (v: Vec<u8>)
    ensures
        v@ == a@,
{
    let mut v: Vec<u8> = Vec::new();
    let mut i: usize = 0;
    while i < a.len()
        invariant
            i <= a.len(),
            v@ == a@.take(i as int),
        decreases a.len() - i,
    {
        v.push(a[i]);
        i += 1;
    }
    v
}

/// Appends `a` to `out`.
pub fn append_bytes(out: &mut Vec<u8>, a: &[u8])
    ensures
        final(out)@ == old(out)@ + a@,
{
    let mut i: usize = 0;
    while i < a.len()
        invariant
            i <= a.len(),
            out@ == old(out)@ + a@.take(i as int),
        decreases a.len() - i,
    {
        out.push(a[i]);
        i += 1;
    }
}

/// Whitespace separates tokens: space, tab, line feed, vertical tab, form feed
/// and carriage return.
pub open spec fn is_space(b: u8) -> bool {
    b == 32 || (9 <= b && b <= 13)
}

/// Whether a byte is whitespace.
pub fn is_space_byte(b: u8) -> (r: bool)
    ensures
        r == is_space(b),
{
    b == 32 || (9 <= b && b <= 13)
}

/// Where the run of non-whitespace bytes that begins at `i` ends.
pub open spec fn token_end(s: Seq<u8>, i: int) -> int
    decreases s.len() - i,
{
    if i < 0 || i >= s.len() || is_space(s[i]) {
        i
    } else {
        token_end(s, i + 1)
    }
}

/// The tokens of `s` from position `i` on: its maximal runs of non-whitespace
/// bytes, in order.
pub open spec fn tokens_from(s: Seq<u8>, i: int) -> Seq<Seq<u8>>
    decreases s.len() - i,
{
    if i < 0 || i >= s.len() {
        Seq::empty()
    } else if is_space(s[i]) {
        tokens_from(s, i + 1)
    } else {
        let e = token_end(s, i);
        if e <= i || e > s.len() {
            Seq::empty()
        } else {
            seq![s.subrange(i, e)] + tokens_from(s, e)
        }
    }
}

/// The tokens of a message.
pub open spec fn tokens(s: Seq<u8>) -> Seq<Seq<u8>> {
    tokens_from(s, 0)
}

/// A token ends after it begins, inside the text, and holds no whitespace.
pub proof fn lemma_token_end(s: Seq<u8>, i: int)
    requires
        0 <= i <= s.len(),
    ensures
        i <= token_end(s, i) <= s.len(),
        i < s.len() && !is_space(s[i]) ==> i < token_end(s, i),
        token_end(s, i) < s.len() ==> is_space(s[token_end(s, i)]),
        forall|k: int| i <= k < token_end(s, i) ==> !is_space(#[trigger] s[k]),
    decreases s.len() - i,
{
    if i < s.len() && !is_space(s[i]) {
        lemma_token_end(s, i + 1);
    }
}

/// The byte strings that a list of buffers holds.
pub open spec fn views(v: Seq<Vec<u8>>) -> Seq<Seq<u8>> {
    v.map_values(|t: Vec<u8>| t@)
}

/// Splits a message into its tokens.
pub fn split_tokens(s: &[u8]) -> (out: Vec<Vec<u8>>)
    ensures
        views(out@) == tokens(s@),
{
    let mut out: Vec<Vec<u8>> = Vec::new();
    let mut i: usize = 0;
    while i < s.len()
        invariant
            i <= s.len(),
            views(out@) + tokens_from(s@, i as int) == tokens(s@),
        decreases s.len() - i,
    {
        if is_space_byte(s[i]) {
            i += 1;
        } else {
            let start = i;
            let mut tok: Vec<u8> = Vec::new();
            while i < s.len() && !is_space_byte(s[i])
                invariant
                    start <= i <= s.len(),
                    tok@ == s@.subrange(start as int, i as int),
                    token_end(s@, start as int) == token_end(s@, i as int),
                decreases s.len() - i,
            {
                tok.push(s[i]);
                i += 1;
            }
            out.push(tok);
        }
    }
    out
}

/// Where the line that begins at `i` ends: at the next line feed, or at the end
/// of the text.
pub open spec fn line_end(s: Seq<u8>, i: int) -> int
    decreases s.len() - i,
{
    if i < 0 || i >= s.len() || s[i] == 10 {
        i
    } else {
        line_end(s, i + 1)
    }
}

/// The lines of `s` from position `i` on, without their line feeds. Text after
/// the last line feed is a line of its own unless it is empty.
pub open spec fn lines_from(s: Seq<u8>, i: int) -> Seq<Seq<u8>>
    decreases s.len() - i,
{
    if i < 0 || i >= s.len() {
        Seq::empty()
    } else {
        let e = line_end(s, i);
        if e < i || e >= s.len() {
            seq![s.subrange(i, s.len() as int)]
        } else {
            seq![s.subrange(i, e)] + lines_from(s, e + 1)
        }
    }
}

/// The lines of a datagram.
pub open spec fn lines(s: Seq<u8>) -> Seq<Seq<u8>> {
    lines_from(s, 0)
}

/// Splits a datagram into its lines.
pub fn split_lines(s: &[u8]) -> (out: Vec<Vec<u8>>)
    ensures
        views(out@) == lines(s@),
{
    let mut out: Vec<Vec<u8>> = Vec::new();
    let mut i: usize = 0;
    while i < s.len()
        invariant
            i <= s.len(),
            views(out@) + lines_from(s@, i as int) == lines(s@),
        decreases s.len() - i,
    {
        let start = i;
        let mut cur: Vec<u8> = Vec::new();
        while i < s.len() && s[i] != 10
            invariant
                start <= i <= s.len(),
                cur@ == s@.subrange(start as int, i as int),
                line_end(s@, start as int) == line_end(s@, i as int),
            decreases s.len() - i,
        {
            cur.push(s[i]);
            i += 1;
        }
        out.push(cur);
        if i < s.len() {
            i += 1;
        }
    }
    out
}

/// The decimal digits of `n`, most significant first, without leading zeros.
pub open spec fn decimal(n: nat) -> Seq<u8>
    decreases n,
{
    if n < 10 {
        seq![(48 + n) as u8]
    } else {
        decimal(n / 10).push((48 + n % 10) as u8)
    }
}

/// Appends the decimal digits of `n` to `out`.
pub fn push_decimal(out: &mut Vec<u8>, n: u32)
    ensures
        final(out)@ == old(out)@ + decimal(n as nat),
    decreases n,
{
    if n >= 10 {
        push_decimal(out, n / 10);
    }
    let d: u8 = (n % 10) as u8;
    out.push(48 + d);
}

/// The position of the first byte at or after `i` that is no whitespace, or
/// the length of the text.
pub open spec fn skip_spaces(s: Seq<u8>, i: int) -> int
    decreases s.len() - i,
{
    if i < 0 || i >= s.len() || !is_space(s[i]) {
        i
    } else {
        skip_spaces(s, i + 1)
    }
}

/// The position after the last byte before `j` that is no whitespace, or 0.
pub open spec fn drop_spaces(s: Seq<u8>, j: int) -> int
    decreases j,
{
    if j <= 0 || j > s.len() || !is_space(s[j - 1]) {
        j
    } else {
        drop_spaces(s, j - 1)
    }
}

/// The text without the whitespace at its beginning and at its end.
pub open spec fn trimmed(s: Seq<u8>) -> Seq<u8> {
    let a = skip_spaces(s, 0);
    let b = drop_spaces(s, s.len() as int);
    if a < b {
        s.subrange(a, b)
    } else {
        Seq::empty()
    }
}

/// A copy of `s` without the whitespace at its beginning and at its end.
pub fn trim(s: &[u8]) -> (v: Vec<u8>)
    ensures
        v@ == trimmed(s@),
{
    let mut a: usize = 0;
    while a < s.len() && is_space_byte(s[a])
        invariant
            a <= s.len(),
            skip_spaces(s@, 0) == skip_spaces(s@, a as int),
        decreases s.len() - a,
    {
        a += 1;
    }
    let mut b: usize = s.len();
    while b > 0 && is_space_byte(s[b - 1])
        invariant
            b <= s.len(),
            drop_spaces(s@, s.len() as int) == drop_spaces(s@, b as int),
        decreases b,
    {
        b -= 1;
    }
    let mut v: Vec<u8> = Vec::new();
    if a < b {
        let mut i: usize = a;
        while i < b
            invariant
                a <= i <= b <= s.len(),
                v@ == s@.subrange(a as int, i as int),
            decreases b - i,
        {
            v.push(s[i]);
            i += 1;
        }
    }
    v
}

/// Whether `s` begins with `p`.
pub open spec fn has_prefix(s: Seq<u8>, p: Seq<u8>) -> bool {
    s.len() >= p.len() && s.take(p.len() as int) == p
}

/// Whether `s` begins with `p`.
pub fn starts_with(s: &[u8], p: &[u8]) -> (r: bool)
    ensures
        r == has_prefix(s@, p@),
{
    if s.len() < p.len() {
        return false;
    }
    let mut i: usize = 0;
    while i < p.len()
        invariant
            i <= p.len() <= s.len(),
            forall|k: int| 0 <= k < i ==> s@[k] == p@[k],
        decreases p.len() - i,
    {
        if s[i] != p[i] {
            return false;
        }
        i += 1;
    }
    assert(s@.take(p.len() as int) =~= p@);
    true
}

/// The position of the first space at or after `i`, or the length of the text.
pub open spec fn first_space(s: Seq<u8>, i: int) -> int
    decreases s.len() - i,
{
    if i < 0 || i >= s.len() || s[i] == 32 {
        i
    } else {
        first_space(s, i + 1)
    }
}

/// Whether `line` is a payload envelope: `DATA `, a sender, a space, a text.
pub open spec fn is_data_line(line: Seq<u8>) -> bool {
    has_prefix(line, ascii("DATA "@)) && first_space(line, 5) < line.len()
}

/// The sender that a payload envelope names: what stands between `DATA ` and
/// the next space.
pub open spec fn data_sender(line: Seq<u8>) -> Seq<u8> {
    line.subrange(5, first_space(line, 5))
}

/// The text that a payload envelope carries: all that follows the space
/// behind the sender.
pub open spec fn data_text(line: Seq<u8>) -> Seq<u8> {
    line.subrange(first_space(line, 5) + 1, line.len() as int)
}

/// Takes a payload envelope apart into sender and text.
pub fn parse_data_line(line: &[u8]) -> (r: Option<(Vec<u8>, Vec<u8>)>)
    ensures
        match r {
            Some((sender, text)) => is_data_line(line@) && sender@ == data_sender(line@) && text@
                == data_text(line@),
            None => !is_data_line(line@),
        },
{
    proof {
        reveal_strlit("DATA ");
    }
    if !starts_with(line, lit("DATA ")) {
        return None;
    }
    let mut sender: Vec<u8> = Vec::new();
    let mut i: usize = 5;
    while i < line.len() && line[i] != 32
        invariant
            5 <= i <= line.len(),
            first_space(line@, 5) == first_space(line@, i as int),
            sender@ == line@.subrange(5, i as int),
        decreases line.len() - i,
    {
        sender.push(line[i]);
        i += 1;
    }
    if i >= line.len() {
        return None;
    }
    let mut text: Vec<u8> = Vec::new();
    let mut k: usize = i + 1;
    while k < line.len()
        invariant
            i + 1 <= k <= line.len(),
            text@ == line@.subrange(i + 1, k as int),
        decreases line.len() - k,
    {
        text.push(line[k]);
        k += 1;
    }
    Some((sender, text))
}

/// A word: at least one byte, and no whitespace.
pub open spec fn is_word(w: Seq<u8>) -> bool {
    w.len() > 0 && forall|k: int| 0 <= k < w.len() ==> !is_space(#[trigger] w[k])
}

/// The line of these words: the words separated by single spaces, ended by a
/// line feed.
pub open spec fn line_of(words: Seq<Seq<u8>>) -> Seq<u8>
    decreases words.len(),
{
    if words.len() == 0 {
        seq![10u8]
    } else if words.len() == 1 {
        words[0] + seq![10u8]
    } else {
        words[0] + seq![32u8] + line_of(words.drop_first())
    }
}

/// A token that begins at `i` ends at `e` if whitespace, or the end of the
/// text, follows it there.
pub proof fn lemma_token_end_is(s: Seq<u8>, i: int, e: int)
    requires
        0 <= i <= e <= s.len(),
        forall|k: int| i <= k < e ==> !is_space(#[trigger] s[k]),
        e == s.len() || is_space(s[e]),
    ensures
        token_end(s, i) == e,
    decreases e - i,
{
    if i < e {
        lemma_token_end_is(s, i + 1, e);
    }
}

/// Tokens end where they end in the rest of the text.
proof fn lemma_token_end_of_rest(s: Seq<u8>, k: int, i: int)
    requires
        0 <= k <= i <= s.len(),
    ensures
        token_end(s, i) == k + token_end(s.skip(k), i - k),
    decreases s.len() - i,
{
    if i < s.len() && !is_space(s[i]) {
        lemma_token_end_of_rest(s, k, i + 1);
    }
}

/// The tokens from a position on are the tokens of the rest of the text.
pub proof fn lemma_tokens_of_rest(s: Seq<u8>, k: int, i: int)
    requires
        0 <= k <= i <= s.len(),
    ensures
        tokens_from(s, i) == tokens_from(s.skip(k), i - k),
    decreases s.len() - i,
{
    if i < s.len() {
        if is_space(s[i]) {
            lemma_tokens_of_rest(s, k, i + 1);
        } else {
            lemma_token_end(s, i);
            lemma_token_end_of_rest(s, k, i);
            let e = token_end(s, i);
            lemma_tokens_of_rest(s, k, e);
            assert(s.subrange(i, e) =~= s.skip(k).subrange(i - k, e - k));
        }
    }
}

/// The tokens of a word, whitespace and more text are the word and the
/// tokens of that text.
pub proof fn lemma_tokens_after_word(w: Seq<u8>, sep: u8, rest: Seq<u8>)
    requires
        is_word(w),
        is_space(sep),
    ensures
        tokens(w + seq![sep] + rest) == seq![w] + tokens(rest),
{
    let s = w + seq![sep] + rest;
    let n = w.len() as int;
    lemma_token_end_is(s, 0, n);
    assert(s.subrange(0, n) =~= w);
    lemma_tokens_of_rest(s, n + 1, n + 1);
    assert(s.skip(n + 1) =~= rest);
    assert(tokens_from(s, n) == tokens_from(s, n + 1));
}

/// Taking a line of words apart gives the words.
pub proof fn lemma_tokens_of_line(words: Seq<Seq<u8>>)
    requires
        forall|i: int| 0 <= i < words.len() ==> is_word(#[trigger] words[i]),
    ensures
        tokens(line_of(words)) == words,
    decreases words.len(),
{
    if words.len() == 0 {
        let s = seq![10u8];
        assert(tokens_from(s, 1) =~= Seq::<Seq<u8>>::empty());
    } else if words.len() == 1 {
        lemma_tokens_after_word(words[0], 10u8, Seq::empty());
    } else {
        let rest = words.drop_first();
        lemma_tokens_of_line(rest);
        lemma_tokens_after_word(words[0], 32u8, line_of(rest));
    }
}

} // verus!
