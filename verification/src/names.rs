use vstd::prelude::*;
use vstd::string::*;

use crate::text::str_eq;
use vstd::utf8::{encode_utf8, encode_scalar};

verus! {

/// An uppercase ASCII letter.
pub open spec fn is_ascii_upper(c: char) -> bool {
    'A' <= c && c <= 'Z'
}

/// Names the game obfuscates are exactly eleven uppercase ASCII letters.
pub open spec fn obfuscated(s: Seq<char>) -> bool {
    &&& s.len() == 11
    &&& forall|i: int| 0 <= i < s.len() ==> is_ascii_upper(#[trigger] s[i])
}

/// Whether `name` has the shape of an obfuscated identifier: eleven uppercase ASCII letters.
pub fn is_obfuscated_name(name: &str) -> (r: bool)
    ensures
        r == obfuscated(name@),
{
    let n: usize = name.unicode_len();
    if n != 11 {
        return false;
    }
    let mut i: usize = 0;
    while i < n
        invariant
            i <= n,
            n == name@.len(),
            forall|j: int| 0 <= j < i ==> is_ascii_upper(#[trigger] name@[j]),
        decreases n - i,
    {
        let c = name.get_char(i);
        if !('A' <= c && c <= 'Z') {
            return false;
        }
        i = i + 1;
    }
    true
}

/// `s` with every occurrence of `pat` removed, scanning left to right.
pub open spec fn remove_all(s: Seq<char>, pat: Seq<char>) -> Seq<char>
    decreases s.len(),
{
    if s.len() == 0 {
        s
    } else if pat.len() > 0 && pat.len() <= s.len() && s.subrange(0, pat.len() as int) == pat {
        remove_all(s.subrange(pat.len() as int, s.len() as int), pat)
    } else {
        seq![s[0]] + remove_all(s.subrange(1, s.len() as int), pat)
    }
}

/// `name` with the "<ub>" and "</ub>" markup removed.
pub open spec fn sanitized(name: Seq<char>) -> Seq<char> {
    remove_all(remove_all(name, "<ub>"@), "</ub>"@)
}

/// Removes every occurrence of `pat` from `s`.
fn remove_occurrences(s: &str, pat: &str) -> (r: String)
    ensures
        r@ == remove_all(s@, pat@),
{
    let n: usize = s.unicode_len();
    let m: usize = pat.unicode_len();
    let mut out = String::new();
    let mut i: usize = 0;
    proof {
        assert(s@.subrange(0, n as int) =~= s@);
        assert(out@ + remove_all(s@, pat@) =~= remove_all(s@, pat@));
    }
    while i < n
        invariant
            i <= n,
            n == s@.len(),
            m == pat@.len(),
            out@ + remove_all(s@.subrange(i as int, n as int), pat@) == remove_all(s@, pat@),
        decreases n - i,
    {
        let ghost rest = s@.subrange(i as int, n as int);
        if m > 0 && m <= n - i && str_eq(s.substring_char(i, i + m), pat) {
            proof {
                assert(rest.subrange(0, m as int) =~= s@.subrange(i as int, i + m));
                assert(rest.subrange(m as int, rest.len() as int) =~= s@.subrange(i + m, n as int));
            }
            i = i + m;
        } else {
            let piece = s.substring_char(i, i + 1);
            proof {
                if m > 0 && m <= rest.len() {
                    assert(rest.subrange(0, m as int) =~= s@.subrange(i as int, i + m));
                }
                assert(piece@ =~= seq![rest[0]]);
                assert(rest.subrange(1, rest.len() as int) =~= s@.subrange(i + 1, n as int));
                assert(out@ + piece@ + remove_all(s@.subrange(i + 1, n as int), pat@) =~= out@ + remove_all(rest, pat@));
            }
            out.append(piece);
            i = i + 1;
        }
    }
    proof {
        assert(s@.subrange(n as int, n as int) =~= Seq::<char>::empty());
        assert(out@ + Seq::<char>::empty() =~= out@);
    }
    out
}

/// A display name without the game's "<ub>" / "</ub>" markup.
pub fn sanitize_entity_name(name: &str) -> (r: String)
    ensures
        r@ == sanitized(name@),
{
    let first = remove_occurrences(name, "<ub>");
    remove_occurrences(first.as_str(), "</ub>")
}

/// Text before any '<' is kept as it is when a pattern starting with '<' is removed.
proof fn lemma_remove_all_plain_prefix(x: Seq<char>, y: Seq<char>, pat: Seq<char>)
    requires
        !x.contains('<'),
        pat.len() > 0,
        pat[0] == '<',
    ensures
        remove_all(x + y, pat) == x + remove_all(y, pat),
    decreases x.len(),
{
    if x.len() == 0 {
        assert(x + y =~= y);
        assert(x + remove_all(y, pat) =~= remove_all(y, pat));
    } else {
        let s = x + y;
        assert(s[0] == x[0]);
        assert(x[0] != '<');
        if pat.len() <= s.len() {
            assert(s.subrange(0, pat.len() as int)[0] == s[0]);
        }
        assert(s.subrange(1, s.len() as int) =~= x.drop_first() + y);
        assert(!x.drop_first().contains('<')) by {
            if x.drop_first().contains('<') {
                let j = choose|j: int| 0 <= j < x.drop_first().len() && x.drop_first()[j] == '<';
                assert(x[j + 1] == '<');
            }
        }
        lemma_remove_all_plain_prefix(x.drop_first(), y, pat);
        assert(seq![s[0]] + (x.drop_first() + remove_all(y, pat)) =~= x + remove_all(y, pat));
    }
}

/// A name without markup characters is kept as it is.
pub proof fn law_sanitizing_keeps_plain_names(name: Seq<char>)
    requires
        !name.contains('<'),
    ensures
        sanitized(name) == name,
{
    reveal_strlit("<ub>");
    reveal_strlit("</ub>");
    lemma_remove_all_plain_prefix(name, seq![], "<ub>"@);
    lemma_remove_all_plain_prefix(name, seq![], "</ub>"@);
    assert(name + Seq::<char>::empty() =~= name);
    assert(remove_all(Seq::<char>::empty(), "<ub>"@) == Seq::<char>::empty());
    assert(remove_all(Seq::<char>::empty(), "</ub>"@) == Seq::<char>::empty());
}

/// Markup around part of a name is dropped and the text around it kept:
/// `a<ub>b</ub>` becomes `ab` when `a` and `b` hold no markup characters.
pub proof fn law_sanitizing_drops_markup(a: Seq<char>, b: Seq<char>)
    requires
        !a.contains('<'),
        !b.contains('<'),
    ensures
        sanitized(a + "<ub>"@ + b + "</ub>"@) == a + b,
{
    reveal_strlit("<ub>");
    reveal_strlit("</ub>");
    let open_tag = "<ub>"@;
    let close_tag = "</ub>"@;
    let empty = Seq::<char>::empty();
    // Removing the opening tag.
    assert(a + open_tag + b + close_tag =~= a + (open_tag + (b + close_tag)));
    lemma_remove_all_plain_prefix(a, open_tag + (b + close_tag), open_tag);
    assert((open_tag + (b + close_tag)).subrange(0, 4) =~= open_tag);
    assert((open_tag + (b + close_tag)).subrange(4, (open_tag + (b + close_tag)).len() as int) =~= b + close_tag);
    lemma_remove_all_plain_prefix(b, close_tag, open_tag);
    let tail = close_tag.subrange(1, 5);
    assert(close_tag.subrange(0, 4)[1] != open_tag[1]);
    assert(!tail.contains('<')) by {
        if tail.contains('<') {
            let j = choose|j: int| 0 <= j < tail.len() && tail[j] == '<';
            assert(tail[j] == close_tag[j + 1]);
        }
    }
    lemma_remove_all_plain_prefix(tail, empty, open_tag);
    assert(tail + empty =~= tail);
    assert(remove_all(empty, open_tag) == empty);
    assert(seq![close_tag[0]] + tail =~= close_tag);
    assert(remove_all(close_tag, open_tag) == close_tag);
    let first = a + (b + close_tag);
    assert(remove_all(a + open_tag + b + close_tag, open_tag) == first);
    // Removing the closing tag.
    assert(!(a + b).contains('<')) by {
        if (a + b).contains('<') {
            let j = choose|j: int| 0 <= j < (a + b).len() && (a + b)[j] == '<';
            if j < a.len() {
                assert(a[j] == '<');
            } else {
                assert(b[j - a.len()] == '<');
            }
        }
    }
    assert(first =~= (a + b) + close_tag);
    lemma_remove_all_plain_prefix(a + b, close_tag, close_tag);
    assert(close_tag.subrange(0, 5) =~= close_tag);
    assert(close_tag.subrange(5, 5) =~= empty);
    assert(remove_all(empty, close_tag) == empty);
    assert(remove_all(close_tag, close_tag) == empty);
    assert((a + b) + empty =~= a + b);
}

/// Bytes the UTF-8 encoding of `c` takes.
pub open spec fn char_width(c: char) -> nat {
    let u = c as u32;
    if u <= 0x7F {
        1
    } else if u <= 0x7FF {
        2
    } else if u <= 0xFFFF {
        3
    } else {
        4
    }
}

/// Bytes the UTF-8 encoding of `s` takes.
pub open spec fn utf8_len(s: Seq<char>) -> nat
    decreases s.len(),
{
    if s.len() == 0 {
        0
    } else {
        char_width(s[0]) + utf8_len(s.drop_first())
    }
}

/// `utf8_len` is the length of the UTF-8 encoding, which is what `str::len` reports.
pub proof fn lemma_utf8_len_is_encoded_len(s: Seq<char>)
    ensures
        utf8_len(s) == encode_utf8(s).len(),
    decreases s.len(),
{
    if s.len() > 0 {
        lemma_utf8_len_is_encoded_len(s.drop_first());
        let c = s[0];
        vstd::utf8::char_is_scalar(c);
        assert(encode_scalar(c as u32).len() == char_width(c));
    }
}

/// The byte length of a concatenation is the sum of the byte lengths.
pub proof fn lemma_utf8_len_concat(a: Seq<char>, b: Seq<char>)
    ensures
        utf8_len(a + b) == utf8_len(a) + utf8_len(b),
    decreases a.len(),
{
    if a.len() > 0 {
        assert((a + b).drop_first() =~= a.drop_first() + b);
        lemma_utf8_len_concat(a.drop_first(), b);
    } else {
        assert(a + b =~= b);
    }
}

/// Byte length is at most four bytes a character.
proof fn lemma_utf8_len_bound(s: Seq<char>)
    ensures
        utf8_len(s) <= 4 * s.len(),
    decreases s.len(),
{
    if s.len() > 0 {
        lemma_utf8_len_bound(s.drop_first());
    }
}

/// The byte length of `s`.
pub fn utf8_len_of(s: &str) -> (r: u128)
    ensures
        r == utf8_len(s@),
        r <= 4 * (usize::MAX as nat),
{
    let n: usize = s.unicode_len();
    let mut total: u128 = 0;
    let mut i: usize = n;
    proof {
        assert(s@.subrange(n as int, n as int) =~= Seq::<char>::empty());
    }
    while i > 0
        invariant
            i <= n,
            n == s@.len(),
            total == utf8_len(s@.subrange(i as int, n as int)),
        decreases i,
    {
        let c = s.get_char(i - 1);
        let u: u32 = c as u32;
        let w: u128 = if u <= 0x7F {
            1
        } else if u <= 0x7FF {
            2
        } else if u <= 0xFFFF {
            3
        } else {
            4
        };
        proof {
            let rest = s@.subrange(i - 1, n as int);
            assert(rest.drop_first() =~= s@.subrange(i as int, n as int));
            lemma_utf8_len_bound(s@.subrange(i as int, n as int));
        }
        total = total + w;
        i = i - 1;
    }
    proof {
        assert(s@.subrange(0, n as int) =~= s@);
        lemma_utf8_len_bound(s@);
    }
    total
}

/// Characters Unicode gives the White_Space property.
pub open spec fn is_white_space(c: char) -> bool {
    let u = c as u32;
    ||| 0x09 <= u <= 0x0D
    ||| u == 0x20
    ||| u == 0x85
    ||| u == 0xA0
    ||| u == 0x1680
    ||| 0x2000 <= u <= 0x200A
    ||| u == 0x2028
    ||| u == 0x2029
    ||| u == 0x202F
    ||| u == 0x205F
    ||| u == 0x3000
}

/// Whether `c` is white space in Unicode's sense.
pub fn white_space(c: char) -> (r: bool)
    ensures
        r == is_white_space(c),
{
    let u: u32 = c as u32;
    (0x09 <= u && u <= 0x0D) || u == 0x20 || u == 0x85 || u == 0xA0 || u == 0x1680 || (0x2000 <= u
        && u <= 0x200A) || u == 0x2028 || u == 0x2029 || u == 0x202F || u == 0x205F || u == 0x3000
}

/// The words of `s` after the partial word `cur`: maximal runs of characters that
/// are not white space.
pub open spec fn split_words(s: Seq<char>, cur: Seq<char>) -> Seq<Seq<char>>
    decreases s.len(),
{
    if s.len() == 0 {
        if cur.len() > 0 { seq![cur] } else { seq![] }
    } else if is_white_space(s[0]) {
        (if cur.len() > 0 { seq![cur] } else { seq![] }) + split_words(s.drop_first(), seq![])
    } else {
        split_words(s.drop_first(), cur.push(s[0]))
    }
}

/// The words of `s`.
pub open spec fn words(s: Seq<char>) -> Seq<Seq<char>> {
    split_words(s, seq![])
}

/// Greedy line filling: words go onto the current line, separated by one space, as
/// long as the line stays within `max` bytes; a word that would overflow a non-empty
/// line starts the next one.
pub open spec fn pack_lines(ws: Seq<Seq<char>>, max: nat, cur: Seq<char>) -> Seq<Seq<char>>
    decreases ws.len(),
{
    if ws.len() == 0 {
        if cur.len() > 0 { seq![cur] } else { seq![] }
    } else {
        let w = ws[0];
        if cur.len() > 0 && utf8_len(cur) + 1 + utf8_len(w) > max {
            seq![cur] + pack_lines(ws.drop_first(), max, w)
        } else {
            pack_lines(ws.drop_first(), max, if cur.len() > 0 { cur + seq![' '] + w } else { w })
        }
    }
}

/// Lines joined by line feeds.
pub open spec fn join_lines(lines: Seq<Seq<char>>) -> Seq<char>
    decreases lines.len(),
{
    if lines.len() == 0 {
        seq![]
    } else if lines.len() == 1 {
        lines[0]
    } else {
        join_lines(lines.drop_last()) + seq!['\n'] + lines.last()
    }
}

/// A character name wrapped to lines of at most `max` bytes where its words allow:
/// a name that already fits, or has no words, is kept as it is.
pub open spec fn wrapped_name(name: Seq<char>, max: nat) -> Seq<char> {
    if utf8_len(name) <= max {
        name
    } else if words(name).len() == 0 {
        name
    } else {
        join_lines(pack_lines(words(name), max, seq![]))
    }
}

/// A word: a non-empty run of characters none of which is white space.
pub open spec fn is_word(w: Seq<char>) -> bool {
    &&& w.len() > 0
    &&& forall|i: int| 0 <= i < w.len() ==> !is_white_space(#[trigger] w[i])
}

/// Scanning a run without white space only extends the pending word.
proof fn lemma_split_run(w: Seq<char>, cur: Seq<char>, t: Seq<char>)
    requires
        forall|i: int| 0 <= i < w.len() ==> !is_white_space(#[trigger] w[i]),
    ensures
        split_words(w + t, cur) == split_words(t, cur + w),
    decreases w.len(),
{
    if w.len() > 0 {
        assert((w + t).drop_first() =~= w.drop_first() + t);
        assert(cur.push(w[0]) + w.drop_first() =~= cur + w);
        lemma_split_run(w.drop_first(), cur.push(w[0]), t);
    } else {
        assert(w + t =~= t);
        assert(cur + w =~= cur);
    }
}

/// A white space character splits the words of a text in two.
pub proof fn lemma_split_at_white_space(a: Seq<char>, c: char, b: Seq<char>, cur: Seq<char>)
    requires
        is_white_space(c),
    ensures
        split_words(a + seq![c] + b, cur) == split_words(a, cur) + split_words(b, seq![]),
    decreases a.len(),
{
    let s = a + seq![c] + b;
    if a.len() == 0 {
        assert(s.drop_first() =~= b);
        assert(s[0] == c);
    } else {
        assert(s[0] == a[0]);
        assert(s.drop_first() =~= a.drop_first() + seq![c] + b);
        if is_white_space(a[0]) {
            lemma_split_at_white_space(a.drop_first(), c, b, seq![]);
            let head: Seq<Seq<char>> = if cur.len() > 0 { seq![cur] } else { seq![] };
            assert(head + (split_words(a.drop_first(), seq![]) + split_words(b, seq![]))
                =~= (head + split_words(a.drop_first(), seq![])) + split_words(b, seq![]));
        } else {
            lemma_split_at_white_space(a.drop_first(), c, b, cur.push(a[0]));
        }
    }
}

/// The words of text that is one word, or a word after a partial word.
proof fn lemma_split_single_word(w: Seq<char>, cur: Seq<char>)
    requires
        forall|i: int| 0 <= i < w.len() ==> !is_white_space(#[trigger] w[i]),
        (cur + w).len() > 0,
    ensures
        split_words(w, cur) == seq![cur + w],
{
    lemma_split_run(w, cur, seq![]);
    assert(w + Seq::<char>::empty() =~= w);
}

/// Every word `split_words` gives is a word.
proof fn lemma_split_gives_words(s: Seq<char>, cur: Seq<char>)
    requires
        forall|i: int| 0 <= i < cur.len() ==> !is_white_space(#[trigger] cur[i]),
    ensures
        forall|k: int| 0 <= k < split_words(s, cur).len() ==> is_word(#[trigger] split_words(s, cur)[k]),
    decreases s.len(),
{
    let head: Seq<Seq<char>> = if cur.len() > 0 { seq![cur] } else { seq![] };
    assert forall|k: int| 0 <= k < head.len() implies is_word(#[trigger] head[k]) by {
        assert(head[k] == cur);
    }
    if s.len() == 0 {
        assert(split_words(s, cur) == head);
        assert forall|k: int| 0 <= k < split_words(s, cur).len() implies is_word(#[trigger] split_words(s, cur)[k]) by {
            assert(split_words(s, cur)[k] == head[k]);
        }
    } else if is_white_space(s[0]) {
        lemma_split_gives_words(s.drop_first(), seq![]);
        let tail = split_words(s.drop_first(), seq![]);
        assert(split_words(s, cur) == head + tail);
        assert forall|k: int| 0 <= k < (head + tail).len() implies is_word(#[trigger] (head + tail)[k]) by {
            if k < head.len() {
                assert((head + tail)[k] == head[k]);
            } else {
                assert((head + tail)[k] == tail[k - head.len()]);
            }
        }
        assert forall|k: int| 0 <= k < split_words(s, cur).len() implies is_word(#[trigger] split_words(s, cur)[k]) by {
            assert(split_words(s, cur)[k] == (head + tail)[k]);
        }
    } else {
        assert forall|i: int| 0 <= i < cur.push(s[0]).len() implies !is_white_space(#[trigger] cur.push(s[0])[i]) by {
            if i < cur.len() {
                assert(cur.push(s[0])[i] == cur[i]);
            }
        }
        lemma_split_gives_words(s.drop_first(), cur.push(s[0]));
        let rest = split_words(s.drop_first(), cur.push(s[0]));
        assert(split_words(s, cur) == rest);
        assert forall|k: int| 0 <= k < split_words(s, cur).len() implies is_word(#[trigger] split_words(s, cur)[k]) by {
            assert(split_words(s, cur)[k] == rest[k]);
        }
    }
}

/// The words of each line, in order.
pub open spec fn words_of_lines(lines: Seq<Seq<char>>) -> Seq<Seq<char>>
    decreases lines.len(),
{
    if lines.len() == 0 {
        seq![]
    } else {
        words_of_lines(lines.drop_last()) + words(lines.last())
    }
}

/// The words of lines joined by line feeds are the words of the lines.
proof fn lemma_join_lines_words(lines: Seq<Seq<char>>)
    ensures
        words(join_lines(lines)) == words_of_lines(lines),
    decreases lines.len(),
{
    if lines.len() == 0 {
        assert(join_lines(lines) == Seq::<char>::empty());
        assert(words(Seq::<char>::empty()) =~= Seq::<Seq<char>>::empty());
        assert(words_of_lines(lines) =~= Seq::<Seq<char>>::empty());
    } else if lines.len() == 1 {
        assert(join_lines(lines) == lines[0]);
        assert(lines.drop_last() =~= Seq::<Seq<char>>::empty());
        assert(words_of_lines(lines.drop_last()) =~= Seq::<Seq<char>>::empty());
        assert(Seq::<Seq<char>>::empty() + words(lines[0]) =~= words(lines[0]));
        assert(words_of_lines(lines) == words_of_lines(lines.drop_last()) + words(lines.last()));
    } else {
        lemma_join_lines_words(lines.drop_last());
        assert(is_white_space('\n'));
        lemma_split_at_white_space(join_lines(lines.drop_last()), '\n', lines.last(), seq![]);
        assert(join_lines(lines) == join_lines(lines.drop_last()) + seq!['\n'] + lines.last());
        assert(words_of_lines(lines) == words_of_lines(lines.drop_last()) + words(lines.last()));
    }
}

/// The words of two lists of lines are the words of the first, then of the second.
proof fn lemma_words_of_lines_append(a: Seq<Seq<char>>, b: Seq<Seq<char>>)
    ensures
        words_of_lines(a + b) == words_of_lines(a) + words_of_lines(b),
    decreases b.len(),
{
    if b.len() == 0 {
        assert(a + b =~= a);
        assert(words_of_lines(a) + Seq::<Seq<char>>::empty() =~= words_of_lines(a));
    } else {
        assert((a + b).drop_last() =~= a + b.drop_last());
        assert((a + b).last() == b.last());
        lemma_words_of_lines_append(a, b.drop_last());
        assert(words_of_lines(a) + words_of_lines(b.drop_last()) + words(b.last())
            =~= words_of_lines(a) + (words_of_lines(b.drop_last()) + words(b.last())));
    }
}

/// Packing words onto lines after a partial line keeps the words, in order.
proof fn lemma_pack_keeps_words(ws: Seq<Seq<char>>, max: nat, cur: Seq<char>)
    requires
        forall|k: int| 0 <= k < ws.len() ==> is_word(#[trigger] ws[k]),
    ensures
        words_of_lines(pack_lines(ws, max, cur)) == words(cur) + ws,
    decreases ws.len(),
{
    let empty_lines = Seq::<Seq<char>>::empty();
    assert(words_of_lines(empty_lines) == empty_lines);
    if cur.len() > 0 {
        let one = seq![cur];
        assert(one.drop_last() =~= empty_lines);
        assert(one.last() == cur);
        assert(words_of_lines(one) == words_of_lines(one.drop_last()) + words(one.last()));
        assert(words_of_lines(one) =~= words(cur));
    } else {
        assert(words(cur) =~= empty_lines);
    }
    if ws.len() == 0 {
        assert(words(cur) + ws =~= words(cur));
        if cur.len() > 0 {
            assert(pack_lines(ws, max, cur) == seq![cur]);
        } else {
            assert(pack_lines(ws, max, cur) == empty_lines);
        }
    } else {
        let w = ws[0];
        let rest = ws.drop_first();
        assert(is_word(w));
        assert(ws =~= seq![w] + rest);
        assert forall|k: int| 0 <= k < rest.len() implies is_word(#[trigger] rest[k]) by {
            assert(rest[k] == ws[k + 1]);
        }
        lemma_split_single_word(w, seq![]);
        assert(Seq::<char>::empty() + w =~= w);
        assert(words(w) == seq![w]);
        if cur.len() > 0 && utf8_len(cur) + 1 + utf8_len(w) > max {
            let tail = pack_lines(rest, max, w);
            assert(pack_lines(ws, max, cur) == seq![cur] + tail);
            lemma_pack_keeps_words(rest, max, w);
            lemma_words_of_lines_append(seq![cur], tail);
            assert(words(cur) + (seq![w] + rest) =~= words(cur) + ws);
        } else {
            let next = if cur.len() > 0 { cur + seq![' '] + w } else { w };
            assert(pack_lines(ws, max, cur) == pack_lines(rest, max, next));
            lemma_pack_keeps_words(rest, max, next);
            if cur.len() > 0 {
                assert(is_white_space(' '));
                lemma_split_at_white_space(cur, ' ', w, seq![]);
                assert(words(next) == words(cur) + seq![w]);
                assert(words(cur) + seq![w] + rest =~= words(cur) + ws);
            } else {
                assert(words(cur) + ws =~= ws);
            }
        }
    }
}

/// Wrapping a name keeps its words, in order: only the white space between them
/// changes.
pub proof fn law_wrapping_keeps_words(name: Seq<char>, max: nat)
    ensures
        words(wrapped_name(name, max)) == words(name),
{
    if utf8_len(name) > max && words(name).len() > 0 {
        let ws = words(name);
        lemma_split_gives_words(name, seq![]);
        lemma_pack_keeps_words(ws, max, seq![]);
        lemma_join_lines_words(pack_lines(ws, max, seq![]));
        assert(words(Seq::<char>::empty()) =~= Seq::<Seq<char>>::empty());
        assert(Seq::<Seq<char>>::empty() + ws =~= ws);
    }
}

/// A line a name wraps into: not empty, without line feeds, and within `max`
/// bytes unless it is a single word.
pub open spec fn wrapped_line(line: Seq<char>, max: nat) -> bool {
    &&& line.len() > 0
    &&& !line.contains('\n')
    &&& (utf8_len(line) <= max || is_word(line))
}

/// Packing keeps every line within the limit, or down to a single word.
proof fn lemma_pack_lines_fit(ws: Seq<Seq<char>>, max: nat, cur: Seq<char>)
    requires
        forall|k: int| 0 <= k < ws.len() ==> is_word(#[trigger] ws[k]),
        cur.len() == 0 || wrapped_line(cur, max),
    ensures
        forall|i: int| 0 <= i < pack_lines(ws, max, cur).len() ==> wrapped_line(#[trigger] pack_lines(ws, max, cur)[i], max),
    decreases ws.len(),
{
    let lines = pack_lines(ws, max, cur);
    if ws.len() == 0 {
        if cur.len() > 0 {
            assert(lines == seq![cur]);
            assert forall|i: int| 0 <= i < lines.len() implies wrapped_line(#[trigger] lines[i], max) by {
                assert(lines[i] == cur);
            }
        } else {
            assert(lines.len() == 0);
        }
    } else {
        let w = ws[0];
        let rest = ws.drop_first();
        assert(is_word(w));
        assert forall|k: int| 0 <= k < rest.len() implies is_word(#[trigger] rest[k]) by {
            assert(rest[k] == ws[k + 1]);
        }
        assert(!w.contains('\n')) by {
            assert(is_white_space('\n'));
            if w.contains('\n') {
                let j = choose|j: int| 0 <= j < w.len() && w[j] == '\n';
                assert(!is_white_space(w[j]));
            }
        }
        assert(wrapped_line(w, max));
        if cur.len() > 0 && utf8_len(cur) + 1 + utf8_len(w) > max {
            let tail = pack_lines(rest, max, w);
            lemma_pack_lines_fit(rest, max, w);
            assert(lines == seq![cur] + tail);
            assert forall|i: int| 0 <= i < lines.len() implies wrapped_line(#[trigger] lines[i], max) by {
                if i == 0 {
                    assert(lines[i] == cur);
                } else {
                    assert(lines[i] == tail[i - 1]);
                }
            }
        } else {
            let next = if cur.len() > 0 { cur + seq![' '] + w } else { w };
            if cur.len() > 0 {
                lemma_utf8_len_concat(cur + seq![' '], w);
                lemma_utf8_len_concat(cur, seq![' ']);
                assert(seq![' '].drop_first() =~= Seq::<char>::empty());
                assert(utf8_len(Seq::<char>::empty()) == 0);
                assert(char_width(' ') == 1);
                assert(seq![' '][0] == ' ');
                assert(utf8_len(seq![' ']) == 1);
                assert(utf8_len(next) <= max);
                assert(!next.contains('\n')) by {
                    if next.contains('\n') {
                        let j = choose|j: int| 0 <= j < next.len() && next[j] == '\n';
                        if j < cur.len() {
                            assert(next[j] == cur[j]);
                        } else if j == cur.len() {
                            assert(next[j] == ' ');
                        } else {
                            assert(next[j] == w[j - cur.len() - 1]);
                        }
                    }
                }
            }
            assert(lines == pack_lines(rest, max, next));
            lemma_pack_lines_fit(rest, max, next);
        }
    }
}

/// A name that needs wrapping and has words becomes its lines joined by line feeds,
/// each line within `max` bytes unless it is a single longer word.
pub proof fn law_wrapped_lines_fit(name: Seq<char>, max: nat)
    requires
        utf8_len(name) > max,
        words(name).len() > 0,
    ensures
        wrapped_name(name, max) == join_lines(pack_lines(words(name), max, seq![])),
        forall|i: int| 0 <= i < pack_lines(words(name), max, seq![]).len()
            ==> wrapped_line(#[trigger] pack_lines(words(name), max, seq![])[i], max),
{
    lemma_split_gives_words(name, seq![]);
    lemma_pack_lines_fit(words(name), max, seq![]);
}

/// `line` begins with the word `w`: it is `w`, or `w` followed by a space and more.
pub open spec fn begins_with_word(line: Seq<char>, w: Seq<char>) -> bool {
    &&& is_word(w)
    &&& w.len() <= line.len()
    &&& line.subrange(0, w.len() as int) == w
    &&& (line.len() == w.len() || line[w.len() as int] == ' ')
}

/// The first word of a line that begins with the word `w` is `w`.
proof fn lemma_first_word(line: Seq<char>, w: Seq<char>)
    requires
        begins_with_word(line, w),
    ensures
        words(line).len() > 0,
        words(line)[0] == w,
{
    if line.len() == w.len() {
        assert(line =~= w);
        lemma_split_single_word(w, seq![]);
        assert(Seq::<char>::empty() + w =~= w);
    } else {
        let t = line.subrange(w.len() as int + 1, line.len() as int);
        assert(line =~= w + seq![' '] + t);
        assert(is_white_space(' '));
        lemma_split_at_white_space(w, ' ', t, seq![]);
        lemma_split_single_word(w, seq![]);
        assert(Seq::<char>::empty() + w =~= w);
    }
}

/// Packing is greedy: a line ends only where the next line's first word would not
/// fit after it; a partial line that begins with `w0` stays the first line's start.
proof fn lemma_pack_lines_greedy(ws: Seq<Seq<char>>, max: nat, cur: Seq<char>, w0: Seq<char>)
    requires
        forall|k: int| 0 <= k < ws.len() ==> is_word(#[trigger] ws[k]),
        cur.len() == 0 || begins_with_word(cur, w0),
    ensures
        cur.len() > 0 ==> pack_lines(ws, max, cur).len() > 0 && begins_with_word(pack_lines(ws, max, cur)[0], w0),
        forall|i: int| 0 <= i < pack_lines(ws, max, cur).len() - 1 ==> utf8_len(#[trigger] pack_lines(ws, max, cur)[i]) + 1
            + utf8_len(words(pack_lines(ws, max, cur)[i + 1])[0]) > max,
    decreases ws.len(),
{
    let lines = pack_lines(ws, max, cur);
    if ws.len() == 0 {
        if cur.len() > 0 {
            assert(lines == seq![cur]);
        }
    } else {
        let w = ws[0];
        let rest = ws.drop_first();
        assert(is_word(w));
        assert forall|k: int| 0 <= k < rest.len() implies is_word(#[trigger] rest[k]) by {
            assert(rest[k] == ws[k + 1]);
        }
        assert(w.subrange(0, w.len() as int) =~= w);
        assert(begins_with_word(w, w));
        if cur.len() > 0 && utf8_len(cur) + 1 + utf8_len(w) > max {
            let tail = pack_lines(rest, max, w);
            lemma_pack_lines_greedy(rest, max, w, w);
            assert(lines == seq![cur] + tail);
            lemma_first_word(tail[0], w);
            assert forall|i: int| 0 <= i < lines.len() - 1 implies utf8_len(#[trigger] lines[i]) + 1
                + utf8_len(words(lines[i + 1])[0]) > max by {
                if i == 0 {
                    assert(lines[0] == cur);
                    assert(lines[1] == tail[0]);
                } else {
                    assert(lines[i] == tail[i - 1]);
                    assert(lines[i + 1] == tail[i]);
                }
            }
        } else {
            let next = if cur.len() > 0 { cur + seq![' '] + w } else { w };
            let start = if cur.len() > 0 { w0 } else { w };
            if cur.len() > 0 {
                assert(next.subrange(0, w0.len() as int) =~= cur.subrange(0, w0.len() as int));
                if cur.len() == w0.len() {
                    assert(next[w0.len() as int] == ' ');
                } else {
                    assert(next[w0.len() as int] == cur[w0.len() as int]);
                }
                assert(begins_with_word(next, w0));
            }
            assert(lines == pack_lines(rest, max, next));
            lemma_pack_lines_greedy(rest, max, next, start);
        }
    }
}

/// Wrapping is greedy: between two consecutive lines of a wrapped name, the first
/// line, a space and the next line's first word together exceed `max` bytes, so no
/// line is broken where the next word would still have fit.
pub proof fn law_wrapping_is_greedy(name: Seq<char>, max: nat)
    requires
        utf8_len(name) > max,
        words(name).len() > 0,
    ensures
        wrapped_name(name, max) == join_lines(pack_lines(words(name), max, seq![])),
        forall|i: int| 0 <= i < pack_lines(words(name), max, seq![]).len() - 1
            ==> utf8_len(#[trigger] pack_lines(words(name), max, seq![])[i]) + 1
                + utf8_len(words(pack_lines(words(name), max, seq![])[i + 1])[0]) > max,
{
    lemma_split_gives_words(name, seq![]);
    lemma_pack_lines_greedy(words(name), max, seq![], seq![]);
}

/// The views of a list of strings.
pub open spec fn views_of(v: Seq<String>) -> Seq<Seq<char>> {
    Seq::new(v.len(), |i: int| v[i]@)
}

/// The words of `s`, in order.
fn split_whitespace_words(s: &str) -> (r: Vec<String>)
    ensures
        views_of(r@) == words(s@),
{
    let n: usize = s.unicode_len();
    let mut out: Vec<String> = Vec::new();
    let mut start: usize = 0;
    let mut i: usize = 0;
    proof {
        assert(s@.subrange(0, n as int) =~= s@);
        assert(s@.subrange(0, 0) =~= Seq::<char>::empty());
        assert(views_of(out@) + words(s@) =~= words(s@));
    }
    while i < n
        invariant
            start <= i <= n,
            n == s@.len(),
            views_of(out@) + split_words(s@.subrange(i as int, n as int), s@.subrange(start as int, i as int)) == words(s@),
        decreases n - i,
    {
        let c = s.get_char(i);
        let ghost rest = s@.subrange(i as int, n as int);
        let ghost cur = s@.subrange(start as int, i as int);
        proof {
            assert(rest[0] == c);
            assert(rest.drop_first() =~= s@.subrange(i + 1, n as int));
        }
        if white_space(c) {
            if start < i {
                let piece = String::from_str(s.substring_char(start, i));
                let ghost before = out@;
                out.push(piece);
                proof {
                    assert(views_of(out@) =~= views_of(before) + seq![cur]);
                    assert(s@.subrange(i + 1, i + 1) =~= Seq::<char>::empty());
                }
            } else {
                proof {
                    assert(cur.len() == 0);
                    assert(s@.subrange(i + 1, i + 1) =~= Seq::<char>::empty());
                    assert(Seq::<Seq<char>>::empty() + split_words(rest.drop_first(), seq![]) =~= split_words(rest.drop_first(), seq![]));
                }
            }
            start = i + 1;
        } else {
            proof {
                assert(cur.push(c) =~= s@.subrange(start as int, i + 1));
            }
        }
        i = i + 1;
    }
    let ghost cur = s@.subrange(start as int, n as int);
    proof {
        assert(s@.subrange(n as int, n as int) =~= Seq::<char>::empty());
    }
    if start < n {
        let piece = String::from_str(s.substring_char(start, n));
        let ghost before = out@;
        out.push(piece);
        proof {
            assert(views_of(out@) =~= views_of(before) + seq![cur]);
        }
    } else {
        proof {
            assert(views_of(out@) + Seq::<Seq<char>>::empty() =~= views_of(out@));
        }
    }
    out
}

/// Wraps a character name onto lines of at most `max_line_length` bytes, breaking
/// only between words (runs of non-white-space). A name that already fits, or has
/// no words, comes back unchanged; a single word longer than the limit keeps a line
/// of its own.
pub fn wrap_character_name(name: &str, max_line_length: usize) -> (r: String)
    ensures
        r@ == wrapped_name(name@, max_line_length as nat),
{
    let max: u128 = max_line_length as u128;
    if utf8_len_of(name) <= max {
        return String::from_str(name);
    }
    let ws = split_whitespace_words(name);
    if ws.len() == 0 {
        return String::from_str(name);
    }
    let ghost all = views_of(ws@);
    let mut lines: Vec<String> = Vec::new();
    let mut cur = String::new();
    let mut j: usize = 0;
    proof {
        assert(all.subrange(0, all.len() as int) =~= all);
        assert(views_of(lines@) + pack_lines(all, max_line_length as nat, seq![]) =~= pack_lines(all, max_line_length as nat, seq![]));
    }
    while j < ws.len()
        invariant
            j <= ws@.len(),
            all == views_of(ws@),
            max == max_line_length as u128,
            views_of(lines@) + pack_lines(all.subrange(j as int, all.len() as int), max_line_length as nat, cur@)
                == pack_lines(all, max_line_length as nat, seq![]),
        decreases ws@.len() - j,
    {
        let word = ws[j].as_str();
        let ghost rest = all.subrange(j as int, all.len() as int);
        proof {
            assert(rest[0] == word@);
            assert(rest.drop_first() =~= all.subrange(j + 1, all.len() as int));
        }
        let cur_empty = cur.as_str().is_empty();
        if !cur_empty && utf8_len_of(cur.as_str()) + 1 + utf8_len_of(word) > max {
            let ghost before = lines@;
            let ghost old_cur = cur@;
            lines.push(cur);
            cur = String::from_str(word);
            proof {
                assert(views_of(lines@) =~= views_of(before) + seq![old_cur]);
            }
        } else {
            let ghost old_cur = cur@;
            if !cur_empty {
                proof {
                    reveal_strlit(" ");
                }
                cur.append(" ");
            }
            cur.append(word);
            proof {
                if old_cur.len() > 0 {
                    assert(cur@ =~= old_cur + seq![' '] + word@);
                } else {
                    assert(cur@ =~= word@);
                }
            }
        }
        j = j + 1;
    }
    proof {
        assert(all.subrange(ws@.len() as int, all.len() as int) =~= Seq::<Seq<char>>::empty());
    }
    if !cur.as_str().is_empty() {
        let ghost before = lines@;
        let ghost last = cur@;
        lines.push(cur);
        proof {
            assert(views_of(lines@) =~= views_of(before) + seq![last]);
        }
    } else {
        proof {
            assert(views_of(lines@) + Seq::<Seq<char>>::empty() =~= views_of(lines@));
        }
    }
    let ghost packed = views_of(lines@);
    let mut out = String::new();
    let mut k: usize = 0;
    while k < lines.len()
        invariant
            k <= lines@.len(),
            packed == views_of(lines@),
            out@ == join_lines(packed.subrange(0, k as int)),
        decreases lines@.len() - k,
    {
        proof {
            let pre = packed.subrange(0, k + 1);
            assert(pre.drop_last() =~= packed.subrange(0, k as int));
        }
        if k > 0 {
            proof {
                reveal_strlit("\n");
            }
            out.append("\n");
        }
        out.append(lines[k].as_str());
        proof {
            let pre = packed.subrange(0, k + 1);
            if k == 0 {
                assert(out@ =~= pre[0]);
            } else {
                assert(out@ =~= join_lines(pre.drop_last()) + seq!['\n'] + pre.last());
            }
        }
        k = k + 1;
    }
    proof {
        assert(packed.subrange(0, lines@.len() as int) =~= packed);
    }
    out
}

} // verus!
