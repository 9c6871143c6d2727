//! What procfs says about a target: when it started, and what it has mapped.

use crate::constants::CUPTI_DST_PATH;
use crate::numbers::{
    dec, decimal, law_parse_reads_what_dec_writes, lemma_numeral, parse_u64, parsed, push_decimal,
};
use crate::text::{
    after_last, at, at_white, chars_of, find_after_last, is_word, law_a_word_is_one_word,
    law_after_last, law_uncut_text_is_one_piece, lemma_pieces_concat, lemma_words_concat, lines,
    nth_word, pieces, same_range, white, words,
};
use vstd::prelude::*;

verus! {

/// Word number `n` of `s`, counted from zero, read as a number.
pub open spec fn numeric_field(s: Seq<char>, n: int) -> Option<u64> {
    if n < words(s).len() {
        parsed(words(s)[n])
    } else {
        None
    }
}

/// The start time in the text of `/proc/<pid>/stat`: its field 22. The name of
/// the program, field 2, stands in parentheses and may itself hold spaces and
/// parentheses, so the fields are counted after the last `)`, where the first
/// word is field 3.
pub open spec fn starttime(stat: Seq<char>) -> Option<u64> {
    match after_last(stat, ')') {
        Some(tail) => numeric_field(tail, 19),
        None => None,
    }
}

/// Whether a line of `/proc/<pid>/maps` has `module` in its pathname column, the
/// sixth word.
pub open spec fn line_shows(line: Seq<char>, module: Seq<char>) -> bool {
    5 < words(line).len() && words(line)[5] == module
}

/// Whether a line of `maps` shows `module`.
pub open spec fn maps_show(maps: Seq<char>, module: Seq<char>) -> bool {
    exists|k: int| 0 <= k < lines(maps).len() && #[trigger] line_shows(lines(maps)[k], module)
}

/// The path of the injected library, as its target sees it.
pub open spec fn library_path(pid: i32) -> Seq<char> {
    CUPTI_DST_PATH@ + decimal(pid as int) + ".so"@
}

/// What a second look at a PID says about the process behind it.
#[derive(Clone, Copy, Debug, PartialEq, Eq, Structural)]
pub enum PidIdentity {
    /// The process that was there before.
    Same,
    /// There is no earlier start time to compare with.
    Unknown,
    /// Another process: the start time has changed.
    Recycled { recorded: u64, now: u64 },
    /// No process at all.
    Gone,
}

/// The identity that a recorded and a current start time add up to.
pub open spec fn identity(recorded: Option<u64>, current: Option<u64>) -> PidIdentity {
    match (recorded, current) {
        (None, _) => PidIdentity::Unknown,
        (Some(_), None) => PidIdentity::Gone,
        (Some(a), Some(b)) => if a == b {
            PidIdentity::Same
        } else {
            PidIdentity::Recycled { recorded: a, now: b }
        },
    }
}

/// Whatever stands before the last `)` is skipped: the name of the program cannot
/// move the field that is read.
pub proof fn law_program_name_is_skipped(head: Seq<char>, tail: Seq<char>)
    requires
        !tail.contains(')'),
    ensures
        starttime(head.push(')') + tail) == numeric_field(tail, 19),
{
    law_after_last(head, tail, ')');
}

/// Text without a `)` has no start time.
pub proof fn law_no_parenthesis_no_start_time(stat: Seq<char>)
    requires
        !stat.contains(')'),
    ensures
        starttime(stat) is None,
{
    law_after_last(Seq::empty(), stat, ')');
}

/// Whether `rest` keeps apart from what it follows: it is nothing, or begins with
/// white space.
pub open spec fn keeps_apart(rest: Seq<char>) -> bool {
    rest.len() == 0 || white(rest[0])
}

proof fn lemma_words_around(before: Seq<char>, gap: char, field: Seq<char>, rest: Seq<char>)
    requires
        white(gap),
        is_word(field),
        keeps_apart(rest),
    ensures
        words(before.push(gap) + field + rest) == words(before) + seq![field] + words(rest),
{
    let s = before.push(gap) + field;
    law_a_word_is_one_word(field);
    lemma_words_concat(before, gap, field);
    if rest.len() == 0 {
        law_a_word_is_one_word(rest);
        assert(s + rest =~= s);
        assert(words(s) + words(rest) =~= words(s));
    } else {
        let later = rest.skip(1);
        assert(rest =~= Seq::empty().push(rest[0]) + later);
        assert(s + rest =~= s.push(rest[0]) + later);
        lemma_words_concat(s, rest[0], later);
        lemma_words_concat(Seq::empty(), rest[0], later);
        law_a_word_is_one_word(Seq::empty());
        assert(words(rest) =~= words(later));
    }
}

/// The word after nineteen others is the one that is read as the start time, however
/// much follows it.
pub proof fn law_the_start_time_is_the_twentieth_word(
    head: Seq<char>,
    before: Seq<char>,
    gap: char,
    field: Seq<char>,
    rest: Seq<char>,
)
    requires
        words(before).len() == 19,
        white(gap),
        is_word(field),
        keeps_apart(rest),
        !(before.push(gap) + field + rest).contains(')'),
    ensures
        starttime(head.push(')') + (before.push(gap) + field + rest)) == parsed(field),
{
    let tail = before.push(gap) + field + rest;
    law_after_last(head, tail, ')');
    lemma_words_around(before, gap, field, rest);
    assert(words(tail)[19] == field);
}

/// The start time is read wherever it stands, whatever follows it: after nineteen
/// words, the decimal form of a number is that start time.
pub proof fn law_the_start_time_is_read(
    head: Seq<char>,
    before: Seq<char>,
    gap: char,
    start: u64,
    rest: Seq<char>,
)
    requires
        words(before).len() == 19,
        white(gap),
        keeps_apart(rest),
        !(before.push(gap) + dec(start as nat) + rest).contains(')'),
    ensures
        starttime(head.push(')') + (before.push(gap) + dec(start as nat) + rest)) == Some(start),
{
    let field = dec(start as nat);
    lemma_numeral(start as nat, 10);
    assert forall|i: int| 0 <= i < field.len() implies !at_white()(#[trigger] field[i]) by {
        assert('0' <= field[i] <= '9');
    }
    law_parse_reads_what_dec_writes(start);
    law_the_start_time_is_the_twentieth_word(head, before, gap, field, rest);
}

/// A line that ends before the start time has none.
pub proof fn law_a_short_line_has_no_start_time(head: Seq<char>, tail: Seq<char>)
    requires
        !tail.contains(')'),
        words(tail).len() <= 19,
    ensures
        starttime(head.push(')') + tail) is None,
{
    law_after_last(head, tail, ')');
}

/// The word after five others is the pathname, however much follows it.
pub proof fn law_the_pathname_is_the_sixth_word(
    before: Seq<char>,
    gap: char,
    path: Seq<char>,
    rest: Seq<char>,
    module: Seq<char>,
)
    requires
        words(before).len() == 5,
        white(gap),
        is_word(path),
        keeps_apart(rest),
    ensures
        line_shows(before.push(gap) + path + rest, module) <==> path == module,
{
    lemma_words_around(before, gap, path, rest);
    assert(words(before.push(gap) + path + rest)[5] == path);
}

/// A line of fewer words has no pathname.
pub proof fn law_an_anonymous_mapping_shows_nothing(line: Seq<char>, module: Seq<char>)
    requires
        words(line).len() <= 5,
    ensures
        !line_shows(line, module),
{
}

/// A listing shows what one of its lines shows, be it the first, the last or any
/// other.
pub proof fn law_a_listing_shows_what_a_line_shows(
    above: Seq<char>,
    below: Seq<char>,
    line: Seq<char>,
    module: Seq<char>,
)
    requires
        !line.contains('\n'),
    ensures
        maps_show(line, module) <==> line_shows(line, module),
        maps_show(above.push('\n') + below, module) <==> maps_show(above, module) || maps_show(
            below,
            module,
        ),
{
    assert forall|i: int| 0 <= i < line.len() implies !at('\n')(#[trigger] line[i]) by {
        assert(line.contains(line[i]));
    }
    law_uncut_text_is_one_piece(line, at('\n'));
    assert(lines(line)[0] == line);
    if line_shows(line, module) {
        assert(line_shows(lines(line)[0], module));
    }
    lemma_pieces_concat(above, '\n', below, at('\n'));
    let all = lines(above.push('\n') + below);
    let n = lines(above).len();
    if maps_show(above.push('\n') + below, module) {
        let k = choose|k: int| 0 <= k < all.len() && #[trigger] line_shows(all[k], module);
        if k < n {
            assert(line_shows(lines(above)[k], module));
        } else {
            assert(line_shows(lines(below)[k - n], module));
        }
    }
    if maps_show(above, module) {
        let k = choose|k: int|
            0 <= k < n && #[trigger] line_shows(lines(above)[k], module);
        assert(line_shows(all[k], module));
    }
    if maps_show(below, module) {
        let k = choose|k: int|
            0 <= k < lines(below).len() && #[trigger] line_shows(lines(below)[k], module);
        assert(all[n + k] == lines(below)[k]);
        assert(line_shows(all[n + k], module));
    }
}

/// The library of a process is where the agent puts it, under the PID of the process.
pub proof fn law_where_the_library_is(pid: i32)
    ensures
        library_path(pid) == "/tmp/cf_loader_cupti_"@ + decimal(pid as int) + ".so"@,
{
}

/// What the kernel appends to a line with a pathname, after a space, changes
/// nothing: an unlinked file that is still mapped, which it marks ` (deleted)`,
/// is still that file.
pub proof fn law_mark_after_the_pathname_is_ignored(
    line: Seq<char>,
    mark: Seq<char>,
    module: Seq<char>,
)
    requires
        5 < words(line).len(),
    ensures
        line_shows(line.push(' ') + mark, module) == line_shows(line, module),
{
    lemma_words_concat(line, ' ', mark);
}

/// Two looks at a process agree only where the start times do, and nothing is
/// held against a process whose start time was never recorded.
pub proof fn law_identity_is_decided_by_the_start_times(
    recorded: Option<u64>,
    current: Option<u64>,
)
    ensures
        identity(recorded, current) is Same <==> recorded is Some && recorded == current,
        identity(recorded, current) is Unknown <==> recorded is None,
        identity(recorded, current) is Gone <==> recorded is Some && current is None,
        identity(recorded, current) is Recycled <==> recorded is Some && current is Some
            && recorded != current,
        identity(recorded, current) matches PidIdentity::Recycled { recorded: before, now }
            ==> recorded == Some(before) && current == Some(now),
{
}

/// The start time in the text of `/proc/<pid>/stat`, in clock ticks since boot.
pub fn parse_proc_starttime(stat: &str) -> (r: Option<u64>)
    ensures
        r == starttime(stat@),
{
    let chars = chars_of(stat);
    match find_after_last(&chars, ')') {
        None => None,
        Some(from) => {
            assert(chars@.subrange(from as int, chars@.len() as int) =~= chars@.skip(from as int));
            match nth_word(&chars, from, chars.len(), 19) {
                None => None,
                Some((a, b)) => parse_u64(&chars, a, b),
            }
        },
    }
}

/// Whether the line from `lo` to `hi` has `module` in its pathname column.
fn line_shows_module(chars: &Vec<char>, lo: usize, hi: usize, module: &Vec<char>) -> (r: bool)
    requires
        lo <= hi <= chars.len(),
    ensures
        r == line_shows(chars@.subrange(lo as int, hi as int), module@),
{
    match nth_word(chars, lo, hi, 5) {
        None => false,
        Some((a, b)) => same_range(chars, a, b, module),
    }
}

/// Whether a `/proc/<pid>/maps` listing has `module` mapped in.
///
/// The pathname is the sixth word of a line and not the last one: the kernel
/// appends ` (deleted)` once the file behind a live mapping is unlinked. It is
/// compared whole, so that a file of the same name in another directory does not
/// count.
pub fn maps_shows_module(maps: &str, module: &str) -> (r: bool)
    ensures
        r == maps_show(maps@, module@),
{
    let chars = chars_of(maps);
    let wanted = chars_of(module);
    let n: usize = chars.len();
    let ghost cut = at('\n');
    let mut shown: bool = false;
    let mut start: usize = 0;
    let mut i: usize = 0;
    assert(chars@.take(0) =~= Seq::empty());
    assert(chars@.subrange(0, 0) =~= Seq::empty());
    while i < n
        invariant
            n == chars.len(),
            start <= i <= n,
            cut == at('\n'),
            ({
                let p = pieces(chars@.take(i as int), cut);
                &&& p.len() >= 1
                &&& p.last() == chars@.subrange(start as int, i as int)
                &&& shown == exists|k: int|
                    0 <= k < p.len() - 1 && #[trigger] line_shows(p[k], wanted@)
            }),
        decreases n - i,
    {
        let ghost p = pieces(chars@.take(i as int), cut);
        let ghost q = pieces(chars@.take(i + 1), cut);
        assert(chars@.take(i + 1).drop_last() =~= chars@.take(i as int));
        if chars[i] == '\n' {
            assert(q =~= p.push(Seq::empty()));
            let hit: bool = line_shows_module(&chars, start, i, &wanted);
            proof {
                assert(q[p.len() - 1] == p.last());
                if shown {
                    let k = choose|k: int|
                        0 <= k < p.len() - 1 && #[trigger] line_shows(p[k], wanted@);
                    assert(line_shows(q[k], wanted@));
                }
                if hit {
                    assert(line_shows(q[p.len() - 1], wanted@));
                }
                if exists|k: int| 0 <= k < q.len() - 1 && #[trigger] line_shows(q[k], wanted@) {
                    let k = choose|k: int|
                        0 <= k < q.len() - 1 && #[trigger] line_shows(q[k], wanted@);
                    assert(q[k] == p[k]);
                    assert(line_shows(p[k], wanted@));
                }
            }
            shown = shown || hit;
            start = i + 1;
            assert(chars@.subrange(i + 1, i + 1) =~= Seq::empty());
        } else {
            assert(q =~= p.drop_last().push(p.last().push(chars@[i as int])));
            assert(chars@.subrange(start as int, i + 1) =~= chars@.subrange(
                start as int,
                i as int,
            ).push(chars@[i as int]));
            proof {
                if shown {
                    let k = choose|k: int|
                        0 <= k < p.len() - 1 && #[trigger] line_shows(p[k], wanted@);
                    assert(line_shows(q[k], wanted@));
                }
                if exists|k: int| 0 <= k < q.len() - 1 && #[trigger] line_shows(q[k], wanted@) {
                    let k = choose|k: int|
                        0 <= k < q.len() - 1 && #[trigger] line_shows(q[k], wanted@);
                    assert(line_shows(p[k], wanted@));
                }
            }
        }
        i += 1;
    }
    assert(chars@.take(n as int) =~= chars@);
    let last: bool = line_shows_module(&chars, start, n, &wanted);
    proof {
        let p = lines(maps@);
        assert(p[p.len() - 1] == p.last());
        if last {
            assert(line_shows(p[p.len() - 1], wanted@));
        }
        if shown {
            let k = choose|k: int| 0 <= k < p.len() - 1 && #[trigger] line_shows(p[k], wanted@);
            assert(line_shows(lines(maps@)[k], module@));
        }
    }
    shown || last
}

/// What a second reading of the start time of a PID says about it.
pub fn classify_pid(recorded: Option<u64>, current: Option<u64>) -> (r: PidIdentity)
    ensures
        r == identity(recorded, current),
{
    match (recorded, current) {
        (None, _) => PidIdentity::Unknown,
        (Some(_), None) => PidIdentity::Gone,
        (Some(a), Some(b)) => if a == b {
            PidIdentity::Same
        } else {
            PidIdentity::Recycled { recorded: a, now: b }
        },
    }
}

/// The path of the injected library, as its target sees it.
pub fn cuprof_module(pid: i32) -> (r: String)
    ensures
        r@ == library_path(pid),
{
    let mut path = CUPTI_DST_PATH.to_owned();
    push_decimal(&mut path, pid);
    path.append(".so");
    path
}

/// The injected library, where `pid` has it mapped already. `maps` is the text of
/// `/proc/<pid>/maps`, or `None` where it could not be read.
///
/// It is looked for in the target, and not in what this process remembers: the
/// library cannot be unmapped, so it outlives the agent that put it there.
pub fn cuprof_resident(pid: i32, maps: Option<&str>) -> (r: Option<String>)
    ensures
        r is Some <==> maps is Some && maps_show(maps->0@, library_path(pid)),
        r matches Some(module) ==> module@ == library_path(pid),
{
    match maps {
        None => None,
        Some(text) => {
            let module = cuprof_module(pid);
            if maps_shows_module(text, module.as_str()) {
                Some(module)
            } else {
                None
            }
        },
    }
}

} // verus!
