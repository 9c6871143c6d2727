//! Text as a sequence of characters: trimming, splitting and comparing.

use vstd::prelude::*;

verus! {

/// The characters that Unicode gives the `White_Space` property.
pub open spec fn white(c: char) -> bool {
    let n = c as u32;
    ||| 0x09 <= n <= 0x0d
    ||| n == 0x20
    ||| n == 0x85
    ||| n == 0xa0
    ||| n == 0x1680
    ||| 0x2000 <= n <= 0x200a
    ||| n == 0x2028
    ||| n == 0x2029
    ||| n == 0x202f
    ||| n == 0x205f
    ||| n == 0x3000
}

/// The predicate [`white`] as a value, to cut text at.
pub open spec fn at_white() -> spec_fn(char) -> bool {
    |c: char| white(c)
}

/// The predicate that holds of one character only.
pub open spec fn at(sep: char) -> spec_fn(char) -> bool {
    |c: char| c == sep
}

/// The stretches of `s` between the characters that `cut` holds of, empty ones
/// among them: one more than there are such characters.
pub open spec fn pieces(s: Seq<char>, cut: spec_fn(char) -> bool) -> Seq<Seq<char>>
    decreases s.len(),
{
    if s.len() == 0 {
        seq![Seq::<char>::empty()]
    } else {
        let before = pieces(s.drop_last(), cut);
        if cut(s.last()) {
            before.push(Seq::empty())
        } else {
            before.drop_last().push(before.last().push(s.last()))
        }
    }
}

/// Those of the stretches that hold anything.
pub open spec fn nonempty(list: Seq<Seq<char>>) -> Seq<Seq<char>> {
    list.filter(|w: Seq<char>| w.len() > 0)
}

/// The words of `s`: its maximal stretches without white space.
pub open spec fn words(s: Seq<char>) -> Seq<Seq<char>> {
    nonempty(pieces(s, at_white()))
}

/// The lines of `s`. A carriage return before the line feed stays in its line,
/// where it is white space like any other.
pub open spec fn lines(s: Seq<char>) -> Seq<Seq<char>> {
    pieces(s, at('\n'))
}

/// `s` without the white space at its start.
pub open spec fn trimmed_start(s: Seq<char>) -> Seq<char>
    decreases s.len(),
{
    if s.len() > 0 && white(s[0]) {
        trimmed_start(s.drop_first())
    } else {
        s
    }
}

/// `s` without what `cut` holds of at its end.
pub open spec fn trimmed_end(s: Seq<char>, cut: spec_fn(char) -> bool) -> Seq<char>
    decreases s.len(),
{
    if s.len() > 0 && cut(s.last()) {
        trimmed_end(s.drop_last(), cut)
    } else {
        s
    }
}

/// `s` without the white space at either end.
pub open spec fn trimmed(s: Seq<char>) -> Seq<char> {
    trimmed_end(trimmed_start(s), at_white())
}

/// The text of a variable, without the white space around it: nothing, where the
/// variable is unset.
pub open spec fn setting(raw: Option<&str>) -> Seq<char> {
    match raw {
        Some(s) => trimmed(s@),
        None => Seq::empty(),
    }
}

/// `s` without `prefix` at its start, however often it is repeated there.
pub open spec fn stripped(s: Seq<char>, prefix: Seq<char>) -> Seq<char>
    decreases s.len(),
{
    if prefix.len() > 0 && prefix.is_prefix_of(s) {
        stripped(s.skip(prefix.len() as int), prefix)
    } else {
        s
    }
}

/// What follows the last `sep` of `s`, if `s` has one.
pub open spec fn after_last(s: Seq<char>, sep: char) -> Option<Seq<char>>
    decreases s.len(),
{
    if s.len() == 0 {
        None
    } else if s.last() == sep {
        Some(Seq::empty())
    } else {
        match after_last(s.drop_last(), sep) {
            Some(tail) => Some(tail.push(s.last())),
            None => None,
        }
    }
}

/// An ASCII capital as its small letter, any other character as itself.
pub open spec fn lower_char(c: char) -> char {
    if 'A' <= c <= 'Z' {
        (c as u32 + 32) as char
    } else {
        c
    }
}

/// `s` with its ASCII capitals as small letters.
pub open spec fn lower(s: Seq<char>) -> Seq<char> {
    s.map_values(|c: char| lower_char(c))
}

/// The texts of a list of strings.
pub open spec fn texts(list: Seq<String>) -> Seq<Seq<char>> {
    list.map_values(|s: String| s@)
}

/// A text that may be missing.
pub open spec fn maybe(text: Option<String>) -> Option<Seq<char>> {
    match text {
        Some(text) => Some(text@),
        None => None,
    }
}

/// A text that may be missing.
pub open spec fn maybe_str(text: Option<&str>) -> Option<Seq<char>> {
    match text {
        Some(text) => Some(text@),
        None => None,
    }
}

/// What an outcome with an error in words says.
pub open spec fn told(r: Result<(), String>) -> Result<(), Seq<char>> {
    match r {
        Ok(_) => Ok(()),
        Err(error) => Err(error@),
    }
}

/// Whether `c` is white space.
pub fn is_white(c: char) -> (r: bool)
    ensures
        r == white(c),
{
    let n: u32 = c as u32;
    (0x09 <= n && n <= 0x0d) || n == 0x20 || n == 0x85 || n == 0xa0 || n == 0x1680 || (0x2000 <= n
        && n <= 0x200a) || n == 0x2028 || n == 0x2029 || n == 0x202f || n == 0x205f || n == 0x3000
}

/// The characters of `s`.
pub fn chars_of(s: &str) -> (r: Vec<char>)
    ensures
        r@ == s@,
{
    let mut out: Vec<char> = Vec::new();
    for c in it: s.chars()
        invariant
            out@ == it.seq().take(it.index() as int),
            it.seq() == s@,
    {
        out.push(c);
    }
    out
}

/// Whether two runs of characters are the same.
pub fn same_chars(a: &Vec<char>, b: &Vec<char>) -> (r: bool)
    ensures
        r == (a@ == b@),
{
    if a.len() != b.len() {
        return false;
    }
    let mut i: usize = 0;
    while i < a.len()
        invariant
            a.len() == b.len(),
            0 <= i <= a.len(),
            forall|k: int| 0 <= k < i ==> a@[k] == b@[k],
        decreases a.len() - i,
    {
        if a[i] != b[i] {
            return false;
        }
        i += 1;
    }
    assert(a@ =~= b@);
    true
}

/// Whether two texts are the same.
pub fn same_text(a: &str, b: &str) -> (r: bool)
    ensures
        r == (a@ == b@),
{
    same_chars(&chars_of(a), &chars_of(b))
}

/// Cutting one more character off the end.
proof fn lemma_pieces_push(s: Seq<char>, c: char, cut: spec_fn(char) -> bool)
    ensures
        pieces(s, cut).len() >= 1,
        cut(c) ==> pieces(s.push(c), cut) == pieces(s, cut).push(Seq::empty()),
        !cut(c) ==> pieces(s.push(c), cut) == pieces(s, cut).drop_last().push(
            pieces(s, cut).last().push(c),
        ),
    decreases s.len(),
{
    assert(s.push(c).drop_last() =~= s);
    if s.len() > 0 {
        lemma_pieces_push(s.drop_last(), s.last(), cut);
        assert(s.drop_last().push(s.last()) =~= s);
    }
}

proof fn lemma_nonempty_push(list: Seq<Seq<char>>, w: Seq<char>)
    ensures
        nonempty(list.push(w)) == (if w.len() > 0 {
            nonempty(list).push(w)
        } else {
            nonempty(list)
        }),
{
    reveal(Seq::filter);
    assert(list.push(w).drop_last() =~= list);
}

/// A character that is cut at keeps what is before it and after it apart.
pub proof fn lemma_pieces_concat(a: Seq<char>, c: char, b: Seq<char>, cut: spec_fn(char) -> bool)
    requires
        cut(c),
    ensures
        pieces(a.push(c) + b, cut) == pieces(a, cut) + pieces(b, cut),
    decreases b.len(),
{
    if b.len() == 0 {
        assert(a.push(c) + b =~= a.push(c));
        lemma_pieces_push(a, c, cut);
        assert(pieces(a, cut).push(Seq::empty()) =~= pieces(a, cut) + pieces(b, cut));
    } else {
        let short = b.drop_last();
        lemma_pieces_concat(a, c, short, cut);
        assert((a.push(c) + b).drop_last() =~= a.push(c) + short);
        assert((a.push(c) + b).last() == b.last());
        lemma_pieces_push(short, b.last(), cut);
        assert(short.push(b.last()) =~= b);
        let before = pieces(a, cut) + pieces(short, cut);
        if cut(b.last()) {
            assert(before.push(Seq::empty()) =~= pieces(a, cut) + pieces(b, cut));
        } else {
            assert(before.last() == pieces(short, cut).last());
            assert(before.drop_last().push(before.last().push(b.last())) =~= pieces(a, cut)
                + pieces(b, cut));
        }
    }
}

/// White space between two texts keeps their words apart.
pub proof fn lemma_words_concat(a: Seq<char>, c: char, b: Seq<char>)
    requires
        white(c),
    ensures
        words(a.push(c) + b) == words(a) + words(b),
{
    lemma_pieces_concat(a, c, b, at_white());
    Seq::filter_distributes_over_add(
        pieces(a, at_white()),
        pieces(b, at_white()),
        |w: Seq<char>| w.len() > 0,
    );
}

// ---- Laws ----

/// Whether `cut` holds of nothing in `s`.
pub open spec fn uncut(s: Seq<char>, cut: spec_fn(char) -> bool) -> bool {
    forall|i: int| 0 <= i < s.len() ==> !cut(#[trigger] s[i])
}

/// The texts of a list, one after the other, with `sep` between any two.
pub open spec fn joined(list: Seq<Seq<char>>, sep: char) -> Seq<char>
    decreases list.len(),
{
    if list.len() == 0 {
        Seq::empty()
    } else if list.len() == 1 {
        list[0]
    } else {
        joined(list.drop_last(), sep).push(sep) + list.last()
    }
}

/// Text that is cut nowhere is one piece.
pub proof fn law_uncut_text_is_one_piece(s: Seq<char>, cut: spec_fn(char) -> bool)
    requires
        uncut(s, cut),
    ensures
        pieces(s, cut) == seq![s],
    decreases s.len(),
{
    if s.len() > 0 {
        let short = s.drop_last();
        assert forall|i: int| 0 <= i < short.len() implies !cut(#[trigger] short[i]) by {
            assert(short[i] == s[i]);
        }
        assert(!cut(s[s.len() - 1]));
        law_uncut_text_is_one_piece(short, cut);
        assert(short.push(s.last()) =~= s);
        assert(seq![short].drop_last().push(short.push(s.last())) =~= seq![s]);
    } else {
        assert(s =~= Seq::empty());
    }
}

/// Cutting undoes joining: texts that are joined by a character that is cut at, and
/// that have none in them, are the pieces.
pub proof fn law_pieces_of_joined_texts(
    list: Seq<Seq<char>>,
    sep: char,
    cut: spec_fn(char) -> bool,
)
    requires
        list.len() > 0,
        cut(sep),
        forall|k: int| 0 <= k < list.len() ==> uncut(#[trigger] list[k], cut),
    ensures
        pieces(joined(list, sep), cut) == list,
    decreases list.len(),
{
    let last = list[list.len() - 1];
    law_uncut_text_is_one_piece(last, cut);
    if list.len() == 1 {
        assert(list =~= seq![last]);
    } else {
        let short = list.drop_last();
        assert forall|k: int| 0 <= k < short.len() implies uncut(#[trigger] short[k], cut) by {
            assert(short[k] == list[k]);
        }
        law_pieces_of_joined_texts(short, sep, cut);
        lemma_pieces_concat(joined(short, sep), sep, last, cut);
        assert(short + seq![last] =~= list);
    }
}

/// Whether `s` is a word: something, without white space.
pub open spec fn is_word(s: Seq<char>) -> bool {
    s.len() > 0 && uncut(s, at_white())
}

/// Nothing is no word, and a word is one.
pub proof fn law_a_word_is_one_word(s: Seq<char>)
    requires
        uncut(s, at_white()),
    ensures
        words(s) == (if s.len() > 0 {
            seq![s]
        } else {
            Seq::empty()
        }),
{
    law_uncut_text_is_one_piece(s, at_white());
    lemma_nonempty_push(Seq::empty(), s);
    reveal(Seq::filter);
    assert(Seq::<Seq<char>>::empty().push(s) =~= seq![s]);
    assert(nonempty(Seq::empty()) =~= Seq::empty());
}

/// Splitting undoes joining: words that are joined by white space are the words of
/// the text, all of them and in order.
pub proof fn law_words_of_joined_words(list: Seq<Seq<char>>, sep: char)
    requires
        white(sep),
        forall|k: int| 0 <= k < list.len() ==> is_word(#[trigger] list[k]),
    ensures
        words(joined(list, sep)) == list,
    decreases list.len(),
{
    if list.len() == 0 {
        law_a_word_is_one_word(Seq::empty());
        assert(list =~= Seq::empty());
    } else {
        let last = list[list.len() - 1];
        assert(is_word(last));
        law_a_word_is_one_word(last);
        if list.len() == 1 {
            assert(list =~= seq![last]);
        } else {
            let short = list.drop_last();
            assert forall|k: int| 0 <= k < short.len() implies is_word(#[trigger] short[k]) by {
                assert(short[k] == list[k]);
            }
            law_words_of_joined_words(short, sep);
            lemma_words_concat(joined(short, sep), sep, last);
            assert(short + seq![last] =~= list);
        }
    }
}

/// Which characters are white space.
pub proof fn law_white_space(c: char)
    ensures
        white(c) <==> {
            ||| c == '\t' || c == '\n' || c == '\u{b}' || c == '\u{c}' || c == '\r'
            ||| c == ' ' || c == '\u{85}' || c == '\u{a0}' || c == '\u{1680}'
            ||| '\u{2000}' <= c <= '\u{200a}'
            ||| c == '\u{2028}' || c == '\u{2029}' || c == '\u{202f}' || c == '\u{205f}'
            ||| c == '\u{3000}'
        },
{
}

/// What is cut off at the end of a text is all that is to be cut off there, and
/// nothing else.
pub proof fn law_trimmed_end(s: Seq<char>, cut: spec_fn(char) -> bool)
    ensures
        ({
            let t = trimmed_end(s, cut);
            &&& t.len() <= s.len()
            &&& t == s.take(t.len() as int)
            &&& forall|i: int| t.len() <= i < s.len() ==> cut(#[trigger] s[i])
            &&& t.len() > 0 ==> !cut(t.last())
        }),
    decreases s.len(),
{
    if s.len() > 0 && cut(s.last()) {
        let short = s.drop_last();
        law_trimmed_end(short, cut);
        let t = trimmed_end(s, cut);
        assert(t =~= s.take(t.len() as int));
        assert forall|i: int| t.len() <= i < s.len() implies cut(#[trigger] s[i]) by {
            if i < short.len() {
                assert(short[i] == s[i]);
            }
        }
    } else {
        assert(s.take(s.len() as int) =~= s);
    }
}

/// What is cut off at the start of a text is all white space there, and nothing else.
pub proof fn law_trimmed_start(s: Seq<char>)
    ensures
        ({
            let t = trimmed_start(s);
            let n = s.len() - t.len();
            &&& 0 <= n
            &&& t == s.skip(n)
            &&& forall|i: int| 0 <= i < n ==> white(#[trigger] s[i])
            &&& t.len() > 0 ==> !white(t[0])
        }),
    decreases s.len(),
{
    if s.len() > 0 && white(s[0]) {
        let short = s.drop_first();
        law_trimmed_start(short);
        let t = trimmed_start(s);
        let n = s.len() - t.len();
        assert(t =~= s.skip(n));
        assert forall|i: int| 0 <= i < n implies white(#[trigger] s[i]) by {
            if i > 0 {
                assert(short[i - 1] == s[i]);
            }
        }
    } else {
        assert(s.skip(0) =~= s);
    }
}

/// Trimming takes off white space alone, and all of it that is at either end.
pub proof fn law_trimmed(s: Seq<char>)
    ensures
        exists|a: int, b: int|
            0 <= a <= b <= s.len() && trimmed(s) == #[trigger] s.subrange(a, b) && (forall|i: int|
                0 <= i < s.len() && !(a <= i < b) ==> white(#[trigger] s[i])),
        trimmed(s).len() > 0 ==> !white(trimmed(s)[0]) && !white(trimmed(s).last()),
{
    let start = trimmed_start(s);
    let t = trimmed(s);
    law_trimmed_start(s);
    law_trimmed_end(start, at_white());
    let a = s.len() - start.len();
    let b = a + t.len();
    assert(t =~= s.subrange(a, b));
    assert forall|i: int| 0 <= i < s.len() && !(a <= i < b) implies white(#[trigger] s[i]) by {
        if i >= b {
            assert(start[i - a] == s[i]);
        }
    }
    if t.len() > 0 {
        assert(t[0] == start[0]);
    }
}

/// A variable that is unset is read as nothing, and one that is set as what it holds
/// between the white space around it.
pub proof fn law_setting(raw: Option<&str>)
    ensures
        raw is None ==> setting(raw).len() == 0,
        raw matches Some(s) ==> setting(raw) == trimmed(s@),
{
}

/// A prefix goes as often as it is there, and nothing else goes.
pub proof fn law_stripped(s: Seq<char>, prefix: Seq<char>)
    requires
        prefix.len() > 0,
    ensures
        stripped(prefix + s, prefix) == stripped(s, prefix),
        !prefix.is_prefix_of(s) ==> stripped(s, prefix) == s,
        !prefix.is_prefix_of(stripped(s, prefix)),
    decreases s.len(),
{
    assert((prefix + s).subrange(0, prefix.len() as int) =~= prefix);
    assert((prefix + s).skip(prefix.len() as int) =~= s);
    if prefix.is_prefix_of(s) {
        law_stripped(s.skip(prefix.len() as int), prefix);
    }
}

/// What follows the last of a character is what follows it without another one, and
/// it is nowhere to be found where there is none.
pub proof fn law_after_last(head: Seq<char>, tail: Seq<char>, sep: char)
    requires
        !tail.contains(sep),
    ensures
        after_last(head.push(sep) + tail, sep) == Some(tail),
        after_last(tail, sep) is None,
    decreases tail.len(),
{
    let s = head.push(sep) + tail;
    if tail.len() == 0 {
        assert(s.last() == sep);
        assert(tail =~= Seq::empty());
    } else {
        let short = tail.drop_last();
        assert(tail.contains(tail.last()));
        assert forall|i: int| 0 <= i < short.len() implies short[i] != sep by {
            assert(tail.contains(tail[i]));
        }
        law_after_last(head, short, sep);
        assert(s.drop_last() =~= head.push(sep) + short);
        assert(short.push(tail.last()) =~= tail);
    }
}

/// Small letters for ASCII capitals, and every other character as it is.
pub proof fn law_lower(s: Seq<char>, i: int)
    ensures
        lower(s).len() == s.len(),
        0 <= i < s.len() && 'A' <= s[i] <= 'Z' ==> 'a' <= lower(s)[i] <= 'z' && lower(s)[i] as int
            - 'a' as int == s[i] as int - 'A' as int,
        0 <= i < s.len() && !('A' <= s[i] <= 'Z') ==> lower(s)[i] == s[i],
{
}

/// What a list, a text that may be missing and an outcome say is what they hold.
pub proof fn law_texts_say_what_they_hold(
    list: Seq<String>,
    k: int,
    text: String,
    borrowed: &str,
)
    ensures
        texts(list).len() == list.len(),
        0 <= k < list.len() ==> texts(list)[k] == list[k]@,
        maybe(Some(text)) == Some(text@),
        maybe(None) is None,
        maybe_str(Some(borrowed)) == Some(borrowed@),
        maybe_str(None) is None,
        told(Err(text)) == Err::<(), Seq<char>>(text@),
        told(Ok(())) is Ok,
{
}

/// Whether the stretch of `chars` from `lo` to `hi` is `other`.
pub fn same_range(chars: &Vec<char>, lo: usize, hi: usize, other: &Vec<char>) -> (r: bool)
    requires
        lo <= hi <= chars.len(),
    ensures
        r == (chars@.subrange(lo as int, hi as int) == other@),
{
    if hi - lo != other.len() {
        return false;
    }
    let ghost s = chars@.subrange(lo as int, hi as int);
    let mut i: usize = 0;
    while i < other.len()
        invariant
            lo <= hi <= chars.len(),
            hi - lo == other.len(),
            s == chars@.subrange(lo as int, hi as int),
            0 <= i <= other.len(),
            forall|k: int| 0 <= k < i ==> s[k] == other@[k],
        decreases other.len() - i,
    {
        if chars[lo + i] != other[i] {
            assert(s[i as int] != other@[i as int]);
            return false;
        }
        i += 1;
    }
    assert(s =~= other@);
    true
}

/// Whether `prefix` stands in `chars` at `from`.
pub fn stands_at(chars: &Vec<char>, from: usize, prefix: &Vec<char>) -> (r: bool)
    requires
        from <= chars.len(),
    ensures
        r == prefix@.is_prefix_of(chars@.skip(from as int)),
{
    if chars.len() - from < prefix.len() {
        return false;
    }
    let mut i: usize = 0;
    while i < prefix.len()
        invariant
            from + prefix.len() <= chars.len(),
            0 <= i <= prefix.len(),
            forall|k: int| 0 <= k < i ==> prefix@[k] == chars@.skip(from as int)[k],
        decreases prefix.len() - i,
    {
        if prefix[i] != chars[from + i] {
            assert(prefix@[i as int] != chars@.skip(from as int)[i as int]);
            return false;
        }
        i += 1;
    }
    assert(prefix@ =~= chars@.skip(from as int).subrange(0, prefix@.len() as int));
    true
}

/// Whether `s` begins with `prefix`.
pub fn begins_with(s: &str, prefix: &str) -> (r: bool)
    ensures
        r == prefix@.is_prefix_of(s@),
{
    let chars = chars_of(s);
    assert(chars@.skip(0) =~= s@);
    stands_at(&chars, 0, &chars_of(prefix))
}

/// `s` without the white space at either end.
pub fn trim(s: &str) -> (r: &str)
    ensures
        r@ == trimmed(s@),
{
    let chars = chars_of(s);
    let n: usize = chars.len();
    let mut lo: usize = 0;
    assert(s@.skip(0) =~= s@);
    while lo < n && is_white(chars[lo])
        invariant
            n == chars.len(),
            chars@ == s@,
            lo <= n,
            trimmed_start(s@) == trimmed_start(s@.skip(lo as int)),
        decreases n - lo,
    {
        assert(s@.skip(lo as int).drop_first() =~= s@.skip(lo + 1));
        lo += 1;
    }
    let mut hi: usize = n;
    assert(s@.subrange(lo as int, n as int) =~= s@.skip(lo as int));
    while hi > lo && is_white(chars[hi - 1])
        invariant
            n == chars.len(),
            chars@ == s@,
            lo <= hi <= n,
            trimmed(s@) == trimmed_end(s@.subrange(lo as int, hi as int), at_white()),
        decreases hi - lo,
    {
        assert(s@.subrange(lo as int, hi as int).drop_last() =~= s@.subrange(
            lo as int,
            hi - 1,
        ));
        hi -= 1;
    }
    s.substring_char(lo, hi)
}

/// The text of a variable that may be unset, without the white space around it.
pub fn read_setting<'a>(raw: Option<&'a str>) -> (r: &'a str)
    ensures
        r@ == setting(raw),
{
    match raw {
        Some(s) => trim(s),
        None => {
            proof {
                reveal_strlit("");
            }
            assert(""@ =~= Seq::empty());
            ""
        },
    }
}

/// `s` without the characters `sep` at its end.
pub fn trim_end_char(s: &str, sep: char) -> (r: &str)
    ensures
        r@ == trimmed_end(s@, at(sep)),
{
    let chars = chars_of(s);
    let mut hi: usize = chars.len();
    assert(s@.take(hi as int) =~= s@);
    while hi > 0 && chars[hi - 1] == sep
        invariant
            chars@ == s@,
            hi <= chars.len(),
            trimmed_end(s@, at(sep)) == trimmed_end(s@.take(hi as int), at(sep)),
        decreases hi,
    {
        assert(s@.take(hi as int).drop_last() =~= s@.take(hi - 1));
        hi -= 1;
    }
    assert(s@.subrange(0, hi as int) =~= s@.take(hi as int));
    s.substring_char(0, hi)
}

/// `s` without `prefix` at its start, however often it is repeated there.
pub fn strip_prefixes<'a>(s: &'a str, prefix: &str) -> (r: &'a str)
    ensures
        r@ == stripped(s@, prefix@),
{
    let chars = chars_of(s);
    let cut = chars_of(prefix);
    let mut lo: usize = 0;
    assert(s@.skip(0) =~= s@);
    while cut.len() > 0 && stands_at(&chars, lo, &cut)
        invariant
            chars@ == s@,
            cut@ == prefix@,
            lo <= chars.len(),
            stripped(s@, prefix@) == stripped(s@.skip(lo as int), prefix@),
        decreases chars.len() - lo,
    {
        assert(s@.skip(lo as int).skip(cut@.len() as int) =~= s@.skip(lo + cut@.len()));
        lo += cut.len();
    }
    assert(s@.subrange(lo as int, s@.len() as int) =~= s@.skip(lo as int));
    s.substring_char(lo, chars.len())
}

/// Where the part after the last `sep` of `chars` begins, if there is one.
pub fn find_after_last(chars: &Vec<char>, sep: char) -> (r: Option<usize>)
    ensures
        match r {
            Some(k) => k <= chars.len() && after_last(chars@, sep) == Some(chars@.skip(k as int)),
            None => after_last(chars@, sep) is None,
        },
{
    let mut found: Option<usize> = None;
    let mut i: usize = 0;
    while i < chars.len()
        invariant
            i <= chars.len(),
            match found {
                Some(k) => k <= i && after_last(chars@.take(i as int), sep) == Some(
                    chars@.subrange(k as int, i as int),
                ),
                None => after_last(chars@.take(i as int), sep) is None,
            },
        decreases chars.len() - i,
    {
        assert(chars@.take(i + 1).drop_last() =~= chars@.take(i as int));
        if chars[i] == sep {
            found = Some(i + 1);
            assert(chars@.subrange(i + 1, i + 1) =~= Seq::<char>::empty());
        } else {
            proof {
                if let Some(k) = found {
                    assert(chars@.subrange(k as int, i as int).push(chars@[i as int])
                        =~= chars@.subrange(k as int, i + 1));
                }
            }
        }
        i += 1;
    }
    assert(chars@.take(i as int) =~= chars@);
    proof {
        if let Some(k) = found {
            assert(chars@.subrange(k as int, i as int) =~= chars@.skip(k as int));
        }
    }
    found
}

/// The place in `chars` of word number `n` of the stretch from `lo` to `hi`,
/// counted from zero.
pub fn nth_word(chars: &Vec<char>, lo: usize, hi: usize, n: usize) -> (r: Option<(usize, usize)>)
    requires
        lo <= hi <= chars.len(),
    ensures
        match r {
            Some((a, b)) => {
                &&& lo <= a <= b <= hi
                &&& n < words(chars@.subrange(lo as int, hi as int)).len()
                &&& words(chars@.subrange(lo as int, hi as int))[n as int] == chars@.subrange(
                    a as int,
                    b as int,
                )
            },
            None => words(chars@.subrange(lo as int, hi as int)).len() <= n,
        },
{
    let ghost cut = at_white();
    let mut start: usize = lo;
    let mut count: usize = 0;
    let mut found: Option<(usize, usize)> = None;
    let mut i: usize = lo;
    proof {
        assert(chars@.subrange(lo as int, lo as int) =~= Seq::<char>::empty());
        let p = pieces(Seq::empty(), cut);
        assert(p.drop_last() =~= Seq::empty());
        reveal(Seq::filter);
    }
    while i < hi
        invariant
            lo <= start <= i <= hi <= chars.len(),
            count <= i - lo,
            cut == at_white(),
            ({
                let p = pieces(chars@.subrange(lo as int, i as int), cut);
                let done = nonempty(p.drop_last());
                &&& p.len() >= 1
                &&& p.last() == chars@.subrange(start as int, i as int)
                &&& done.len() == count
                &&& match found {
                    Some((a, b)) => {
                        &&& lo <= a <= b <= hi
                        &&& n < count
                        &&& done[n as int] == chars@.subrange(a as int, b as int)
                    },
                    None => count <= n,
                }
            }),
        decreases hi - i,
    {
        let ghost before = chars@.subrange(lo as int, i as int);
        let ghost p = pieces(before, cut);
        proof {
            lemma_pieces_push(before, chars@[i as int], cut);
            assert(before.push(chars@[i as int]) =~= chars@.subrange(lo as int, i + 1));
            lemma_nonempty_push(p.drop_last(), p.last());
            assert(p.drop_last().push(p.last()) =~= p);
        }
        if is_white(chars[i]) {
            if start < i {
                if count == n {
                    found = Some((start, i));
                }
                count += 1;
            }
            start = i + 1;
            proof {
                assert(p.push(Seq::<char>::empty()).drop_last() =~= p);
                assert(chars@.subrange(i + 1, i + 1) =~= Seq::<char>::empty());
            }
        } else {
            proof {
                let q = p.drop_last().push(p.last().push(chars@[i as int]));
                assert(q.drop_last() =~= p.drop_last());
                assert(chars@.subrange(start as int, i as int).push(chars@[i as int])
                    =~= chars@.subrange(start as int, i + 1));
            }
        }
        i += 1;
    }
    proof {
        let p = pieces(chars@.subrange(lo as int, hi as int), cut);
        lemma_nonempty_push(p.drop_last(), p.last());
        assert(p.drop_last().push(p.last()) =~= p);
    }
    if start < hi && count == n {
        found = Some((start, hi));
    }
    found
}

/// Whether `s`, with its ASCII capitals as small letters, is `word`.
pub fn same_lowered(s: &str, word: &str) -> (r: bool)
    ensures
        r == (lower(s@) == word@),
{
    let a = chars_of(s);
    let b = chars_of(word);
    if a.len() != b.len() {
        assert(lower(s@).len() == a.len());
        return false;
    }
    let mut i: usize = 0;
    while i < a.len()
        invariant
            a@ == s@,
            b@ == word@,
            a.len() == b.len(),
            0 <= i <= a.len(),
            forall|k: int| 0 <= k < i ==> lower(s@)[k] == word@[k],
        decreases a.len() - i,
    {
        let c: char = a[i];
        let code: u32 = if 'A' <= c && c <= 'Z' {
            c as u32 + 32
        } else {
            c as u32
        };
        assert(lower(s@)[i as int] == lower_char(c));
        assert(lower_char(c) as u32 == code);
        if code != b[i] as u32 {
            return false;
        }
        proof {
            vstd::utf8::char_u32_cast(word@[i as int], code);
            vstd::utf8::char_u32_cast(lower_char(c), code);
        }
        i += 1;
    }
    assert(lower(s@) =~= word@);
    true
}

} // verus!
