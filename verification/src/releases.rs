//! Which of several vendored CUPTI runtimes to stage.
//!
//! The ABI of CUPTI is fixed within a SONAME family, but the driver that it needs
//! rises with each patch level. The newest release knows the most GPUs, the
//! oldest starts on the oldest drivers. Which matters depends on the fleet, so
//! the default can be overridden.

use crate::constants::CUPTI_FILE_PREFIX;
use crate::numbers::{
    dec, law_parse_reads_what_dec_writes, lemma_numeral, parse_u64, parsed,
};
use crate::text::{
    at, begins_with, chars_of, joined, law_pieces_of_joined_texts, law_stripped, pieces,
    read_setting, same_text, setting, strip_prefixes, stripped, texts, uncut,
};
use std::cmp::Ordering;
use vstd::prelude::*;

verus! {

/// Which of the runtimes that share one SONAME should be staged.
#[derive(Debug, PartialEq, Eq)]
pub enum CuptiPreference {
    /// The newest release.
    Highest,
    /// The oldest release.
    Lowest,
    /// The file of this name, or the newest release where there is none.
    Exact(String),
}

/// What a [`CuptiPreference`] says.
pub enum Preference {
    Highest,
    Lowest,
    Exact(Seq<char>),
}

impl View for CuptiPreference {
    type V = Preference;

    open spec fn view(&self) -> Preference {
        match *self {
            CuptiPreference::Highest => Preference::Highest,
            CuptiPreference::Lowest => Preference::Lowest,
            CuptiPreference::Exact(name) => Preference::Exact(name@),
        }
    }
}

/// The preference that a setting names. What is neither a preference nor the name
/// of a runtime counts as [`Preference::Highest`].
pub open spec fn preference_of(t: Seq<char>) -> Preference {
    if t == "lowest"@ {
        Preference::Lowest
    } else if CUPTI_FILE_PREFIX@.is_prefix_of(t) {
        Preference::Exact(t)
    } else {
        Preference::Highest
    }
}

/// The version in the file name of a release: at least three numbers, with dots
/// between them, after the prefix that all runtimes share. `None` for a name that
/// is no release, such as a bare SONAME.
pub open spec fn version(name: Seq<char>) -> Option<Seq<u64>> {
    let parts = pieces(stripped(name, CUPTI_FILE_PREFIX@), at('.'));
    if parts.len() >= 3 && forall|i: int| 0 <= i < parts.len() ==> parsed(#[trigger] parts[i]) is Some {
        Some(parts.map_values(|part: Seq<char>| parsed(part)->0))
    } else {
        None
    }
}

/// Dictionary order: by the first place in which two sequences differ, or, if one
/// is the start of the other, by their length.
pub open spec fn lex_less(a: Seq<int>, b: Seq<int>) -> bool
    decreases a.len(),
{
    if b.len() == 0 {
        false
    } else if a.len() == 0 {
        true
    } else if a[0] != b[0] {
        a[0] < b[0]
    } else {
        lex_less(a.drop_first(), b.drop_first())
    }
}

/// The numbers of a version.
pub open spec fn numbers_of(v: Seq<u64>) -> Seq<int> {
    v.map_values(|n: u64| n as int)
}

/// The code points of a text.
pub open spec fn codes_of(s: Seq<char>) -> Seq<int> {
    s.map_values(|c: char| c as int)
}

/// Number by number, with a name that is no release below every release.
pub open spec fn version_less(a: Option<Seq<u64>>, b: Option<Seq<u64>>) -> bool {
    match (a, b) {
        (None, Some(_)) => true,
        (Some(x), Some(y)) => lex_less(numbers_of(x), numbers_of(y)),
        _ => false,
    }
}

/// The order of candidate file names: by version, and by the name itself where
/// the versions are the same.
pub open spec fn candidate_less(a: Seq<char>, b: Seq<char>) -> bool {
    ||| version_less(version(a), version(b))
    ||| version(a) == version(b) && lex_less(codes_of(a), codes_of(b))
}

/// Whether a ranking may choose `name` out of `names`: a name that is no release
/// is held back as long as there is a release.
pub open spec fn ranked(names: Seq<Seq<char>>, name: Seq<char>) -> bool {
    ||| version(name) is Some
    ||| forall|m: Seq<char>| #[trigger] names.contains(m) ==> version(m) is None
}

/// Whether `name` is the one of `names` to stage.
pub open spec fn picks(names: Seq<Seq<char>>, preference: Preference, name: Seq<char>) -> bool {
    &&& names.contains(name)
    &&& if preference is Exact && names.contains(preference->Exact_0) {
        name == preference->Exact_0
    } else {
        &&& ranked(names, name)
        &&& forall|m: Seq<char>| #[trigger]
            names.contains(m) && ranked(names, m) ==> (if preference is Lowest {
                !candidate_less(m, name)
            } else {
                !candidate_less(name, m)
            })
    }
}

proof fn lemma_lex_total(a: Seq<int>, b: Seq<int>)
    ensures
        a == b || lex_less(a, b) || lex_less(b, a),
        !(lex_less(a, b) && lex_less(b, a)),
        !lex_less(a, a),
    decreases a.len(),
{
    if a.len() == 0 {
        if b.len() == 0 {
            assert(a =~= b);
        }
    } else {
        lemma_lex_total(a.drop_first(), a.drop_first());
        if b.len() > 0 && a[0] == b[0] {
            lemma_lex_total(a.drop_first(), b.drop_first());
            if a.drop_first() == b.drop_first() {
                assert(a =~= seq![a[0]] + a.drop_first());
                assert(b =~= seq![b[0]] + b.drop_first());
            }
        }
    }
}

proof fn lemma_lex_transitive(a: Seq<int>, b: Seq<int>, c: Seq<int>)
    requires
        lex_less(a, b),
        lex_less(b, c),
    ensures
        lex_less(a, c),
    decreases a.len(),
{
    if a.len() > 0 && a[0] == b[0] && b[0] == c[0] {
        lemma_lex_transitive(a.drop_first(), b.drop_first(), c.drop_first());
    }
}

proof fn lemma_codes_injective(a: Seq<char>, b: Seq<char>)
    requires
        codes_of(a) == codes_of(b),
    ensures
        a == b,
{
    assert(a.len() == codes_of(a).len());
    assert forall|i: int| 0 <= i < a.len() implies a[i] == b[i] by {
        assert(codes_of(a)[i] == a[i] as int);
        assert(codes_of(b)[i] == b[i] as int);
    }
    assert(a =~= b);
}

proof fn lemma_numbers_injective(a: Seq<u64>, b: Seq<u64>)
    requires
        numbers_of(a) == numbers_of(b),
    ensures
        a == b,
{
    assert(a.len() == numbers_of(a).len());
    assert forall|i: int| 0 <= i < a.len() implies a[i] == b[i] by {
        assert(numbers_of(a)[i] == a[i] as int);
        assert(numbers_of(b)[i] == b[i] as int);
    }
    assert(a =~= b);
}

/// The order of candidates is total: of two names, exactly one of three holds.
/// They are the same, the first is below the second, or the second is below the
/// first.
pub proof fn law_candidate_order_is_total(a: Seq<char>, b: Seq<char>)
    ensures
        a == b || candidate_less(a, b) || candidate_less(b, a),
        !(candidate_less(a, b) && candidate_less(b, a)),
        !candidate_less(a, a),
{
    lemma_lex_total(codes_of(a), codes_of(b));
    lemma_lex_total(codes_of(a), codes_of(a));
    if codes_of(a) == codes_of(b) {
        lemma_codes_injective(a, b);
    }
    if let Some(x) = version(a) {
        lemma_lex_total(numbers_of(x), numbers_of(x));
        if let Some(y) = version(b) {
            lemma_lex_total(numbers_of(x), numbers_of(y));
            lemma_lex_total(numbers_of(y), numbers_of(y));
            if numbers_of(x) == numbers_of(y) {
                lemma_numbers_injective(x, y);
            }
        }
    }
}

/// The order of candidates is transitive.
pub proof fn law_candidate_order_is_transitive(a: Seq<char>, b: Seq<char>, c: Seq<char>)
    requires
        candidate_less(a, b),
        candidate_less(b, c),
    ensures
        candidate_less(a, c),
{
    if version(a) == version(b) && version(b) == version(c) && !version_less(
        version(a),
        version(c),
    ) {
        if version_less(version(a), version(b)) || version_less(version(b), version(c)) {
            assert(version_less(version(a), version(c)));
        } else {
            lemma_lex_transitive(codes_of(a), codes_of(b), codes_of(c));
        }
    } else if version_less(version(a), version(b)) && version_less(version(b), version(c)) {
        if let (Some(x), Some(y), Some(z)) = (version(a), version(b), version(c)) {
            lemma_lex_transitive(numbers_of(x), numbers_of(y), numbers_of(z));
        }
    }
}

/// A name that is no release is below every release.
pub proof fn law_releases_outrank_other_names(other: Seq<char>, release: Seq<char>)
    requires
        version(other) is None,
        version(release) is Some,
    ensures
        candidate_less(other, release),
{
}

/// The choice depends on which names there are, and on nothing else: not on the
/// order in which a directory lists them, nor on how often.
pub proof fn law_pick_ignores_listing_order(
    names: Seq<Seq<char>>,
    relisted: Seq<Seq<char>>,
    preference: Preference,
    a: Seq<char>,
    b: Seq<char>,
)
    requires
        forall|m: Seq<char>| #[trigger] names.contains(m) <==> relisted.contains(m),
        picks(names, preference, a),
        picks(relisted, preference, b),
    ensures
        a == b,
{
    law_candidate_order_is_total(a, b);
    assert(names.contains(a) && names.contains(b));
    assert(relisted.contains(a) && relisted.contains(b));
    assert(ranked(names, a) == ranked(relisted, a)) by {
        lemma_ranked_same(names, relisted, a);
    }
    assert(ranked(names, b) == ranked(relisted, b)) by {
        lemma_ranked_same(names, relisted, b);
    }
    if preference is Exact {
        assert(names.contains(preference->Exact_0) == relisted.contains(preference->Exact_0));
    }
}

proof fn lemma_ranked_same(names: Seq<Seq<char>>, relisted: Seq<Seq<char>>, name: Seq<char>)
    requires
        forall|m: Seq<char>| #[trigger] names.contains(m) <==> relisted.contains(m),
    ensures
        ranked(names, name) == ranked(relisted, name),
{
    if forall|m: Seq<char>| #[trigger] names.contains(m) ==> version(m) is None {
        assert forall|m: Seq<char>| #[trigger] relisted.contains(m) implies version(m) is None by {
            assert(names.contains(m));
        }
    }
}

/// The best of the first `n` names that a ranking may choose from, where there is
/// one among them.
proof fn lemma_best(names: Seq<Seq<char>>, lowest: bool, n: nat) -> (best: Option<Seq<char>>)
    requires
        n <= names.len(),
    ensures
        match best {
            Some(name) => names.contains(name) && ranked(names, name) && forall|i: int|
                0 <= i < n && ranked(names, #[trigger] names[i]) ==> (if lowest {
                    !candidate_less(names[i], name)
                } else {
                    !candidate_less(name, names[i])
                }),
            None => forall|i: int| 0 <= i < n ==> !ranked(names, #[trigger] names[i]),
        },
    decreases n,
{
    if n == 0 {
        None
    } else {
        let before = lemma_best(names, lowest, (n - 1) as nat);
        let last = names[n - 1];
        law_candidate_order_is_total(last, last);
        if !ranked(names, last) {
            before
        } else {
            match before {
                None => Some(last),
                Some(name) => {
                    if lowest && candidate_less(last, name) {
                        assert forall|i: int|
                            0 <= i < n && ranked(names, #[trigger] names[i]) implies !candidate_less(
                            names[i],
                            last,
                        ) by {
                            if candidate_less(names[i], last) {
                                law_candidate_order_is_transitive(names[i], last, name);
                            }
                        }
                        Some(last)
                    } else if !lowest && candidate_less(name, last) {
                        assert forall|i: int|
                            0 <= i < n && ranked(names, #[trigger] names[i]) implies !candidate_less(
                            last,
                            names[i],
                        ) by {
                            if candidate_less(last, names[i]) {
                                law_candidate_order_is_transitive(name, last, names[i]);
                            }
                        }
                        Some(last)
                    } else {
                        before
                    }
                },
            }
        }
    }
}

/// Out of any names at all, there is one to stage.
pub proof fn law_there_is_a_pick(names: Seq<Seq<char>>, preference: Preference)
    requires
        names.len() > 0,
    ensures
        exists|name: Seq<char>| picks(names, preference, name),
{
    if preference is Exact && names.contains(preference->Exact_0) {
        assert(picks(names, preference, preference->Exact_0));
    } else {
        let lowest = preference is Lowest;
        let best = lemma_best(names, lowest, names.len());
        if best is None {
            let release = choose|m: Seq<char>| #[trigger]
                names.contains(m) && !(version(m) is None);
            assert(!ranked(names, names[0]));
            let k = names.index_of(release);
            assert(names[k] == release);
            assert(ranked(names, names[k]));
        }
        let name = best->0;
        assert forall|m: Seq<char>| #[trigger]
            names.contains(m) && ranked(names, m) implies (if lowest {
            !candidate_less(m, name)
        } else {
            !candidate_less(name, m)
        }) by {
            let k = names.index_of(m);
            assert(names[k] == m);
        }
        assert(picks(names, preference, name));
    }
}

/// A release is chosen wherever there is one, unless a file that is none is named
/// outright.
pub proof fn law_pick_prefers_releases(
    names: Seq<Seq<char>>,
    preference: Preference,
    name: Seq<char>,
    release: Seq<char>,
)
    requires
        picks(names, preference, name),
        names.contains(release),
        version(release) is Some,
        preference is Exact ==> !names.contains(preference->Exact_0),
    ensures
        version(name) is Some,
{
}

/// What is read of a file name: the parts between the dots, after the prefix, each as
/// a number. There is a version exactly where there are at least three parts, and all
/// of them are numbers.
pub proof fn law_a_version_is_read_part_by_part(parts: Seq<Seq<char>>)
    requires
        parts.len() > 0,
        forall|k: int| 0 <= k < parts.len() ==> uncut(#[trigger] parts[k], at('.')),
        !"libcupti.so."@.is_prefix_of(joined(parts, '.')),
    ensures
        version("libcupti.so."@ + joined(parts, '.')) == version(joined(parts, '.')),
        parts.len() < 3 ==> version(joined(parts, '.')) is None,
        (exists|k: int| 0 <= k < parts.len() && parsed(#[trigger] parts[k]) is None) ==> version(
            joined(parts, '.'),
        ) is None,
        parts.len() >= 3 && (forall|k: int|
            0 <= k < parts.len() ==> parsed(#[trigger] parts[k]) is Some) ==> (version(
            joined(parts, '.'),
        ) matches Some(v) && v.len() == parts.len() && forall|k: int|
            0 <= k < parts.len() ==> Some(#[trigger] v[k]) == parsed(parts[k])),
{
    let rest = joined(parts, '.');
    reveal_strlit("libcupti.so.");
    law_stripped(rest, CUPTI_FILE_PREFIX@);
    law_pieces_of_joined_texts(parts, '.', at('.'));
    if parts.len() >= 3 && (forall|k: int|
        0 <= k < parts.len() ==> parsed(#[trigger] parts[k]) is Some) {
        let v = version(rest)->0;
        assert forall|k: int| 0 <= k < parts.len() implies Some(#[trigger] v[k]) == parsed(
            parts[k],
        ) by {
            assert(parsed(parts[k]) is Some);
        }
    }
}

/// The name of a release, from its numbers.
pub open spec fn release_name(numbers: Seq<u64>) -> Seq<char> {
    "libcupti.so."@ + joined(numbers.map_values(|n: u64| dec(n as nat)), '.')
}

proof fn lemma_joined_begins(list: Seq<Seq<char>>, sep: char)
    requires
        list.len() > 0,
        list[0].len() > 0,
    ensures
        joined(list, sep).len() > 0,
        joined(list, sep)[0] == list[0][0],
    decreases list.len(),
{
    if list.len() > 1 {
        lemma_joined_begins(list.drop_last(), sep);
    }
}

/// The version in the name of a release is the numbers that it was made from, however
/// many and however large.
pub proof fn law_a_release_has_its_version(numbers: Seq<u64>)
    requires
        numbers.len() >= 3,
    ensures
        version(release_name(numbers)) == Some(numbers),
{
    let parts = numbers.map_values(|n: u64| dec(n as nat));
    assert forall|k: int| 0 <= k < parts.len() implies uncut(#[trigger] parts[k], at('.'))
        && parsed(parts[k]) == Some(numbers[k]) && parts[k].len() > 0 && '0' <= parts[k][0]
        <= '9' by {
        lemma_numeral(numbers[k] as nat, 10);
        law_parse_reads_what_dec_writes(numbers[k]);
        assert forall|i: int| 0 <= i < parts[k].len() implies !at('.')(#[trigger] parts[k][i]) by {
            assert('0' <= dec(numbers[k] as nat)[i] <= '9');
        }
    }
    let rest = joined(parts, '.');
    lemma_joined_begins(parts, '.');
    assert('0' <= parts[0][0] <= '9');
    reveal_strlit("libcupti.so.");
    if "libcupti.so."@.is_prefix_of(rest) {
        assert(rest.subrange(0, "libcupti.so."@.len() as int)[0] == rest[0]);
    }
    law_a_version_is_read_part_by_part(parts);
    assert forall|k: int| 0 <= k < parts.len() implies parsed(#[trigger] parts[k]) is Some by {
        assert(parsed(parts[k]) == Some(numbers[k]));
    }
    let v = version(rest)->0;
    assert forall|k: int| 0 <= k < numbers.len() implies v[k] == numbers[k] by {
        assert(Some(v[k]) == parsed(parts[k]));
    }
    assert(v =~= numbers);
}

/// Whether `a` comes before `b` by what is at `k`: up to there they are the same, and
/// there `a` ends or is less.
pub open spec fn less_at(a: Seq<int>, b: Seq<int>, k: int) -> bool {
    &&& 0 <= k <= a.len()
    &&& k < b.len()
    &&& forall|i: int| 0 <= i < k ==> #[trigger] a[i] == b[i]
    &&& k == a.len() || a[k] < b[k]
}

/// Dictionary order is decided at the first place in which two sequences differ.
pub proof fn law_dictionary_order(a: Seq<int>, b: Seq<int>)
    ensures
        lex_less(a, b) <==> exists|k: int| #[trigger] less_at(a, b, k),
    decreases a.len(),
{
    if b.len() > 0 && a.len() > 0 && a[0] == b[0] {
        let x = a.drop_first();
        let y = b.drop_first();
        law_dictionary_order(x, y);
        if lex_less(a, b) {
            let k = choose|k: int| #[trigger] less_at(x, y, k);
            assert forall|i: int| 0 <= i < k + 1 implies #[trigger] a[i] == b[i] by {
                if i > 0 {
                    assert(x[i - 1] == y[i - 1]);
                }
            }
            assert(less_at(a, b, k + 1));
        }
        if exists|k: int| #[trigger] less_at(a, b, k) {
            let k = choose|k: int| #[trigger] less_at(a, b, k);
            assert(k > 0);
            assert forall|i: int| 0 <= i < k - 1 implies #[trigger] x[i] == y[i] by {
                assert(a[i + 1] == b[i + 1]);
            }
            assert(less_at(x, y, k - 1));
        }
    } else if b.len() > 0 && lex_less(a, b) {
        assert(less_at(a, b, 0));
    } else if b.len() > 0 && a.len() > 0 {
        assert(a[0] > b[0]);
        if exists|k: int| #[trigger] less_at(a, b, k) {
            let k = choose|k: int| #[trigger] less_at(a, b, k);
            if k > 0 {
                assert(a[0] == b[0]);
            }
        }
    }
}

/// Of two releases, the one with the lower number is below, where their numbers first
/// differ, or the one with fewer numbers, where they do not. Their names play no part
/// in it.
pub proof fn law_releases_go_by_their_numbers(
    a: Seq<char>,
    b: Seq<char>,
    x: Seq<u64>,
    y: Seq<u64>,
    k: int,
)
    requires
        version(a) == Some(x),
        version(b) == Some(y),
        0 <= k <= x.len(),
        k < y.len(),
        forall|i: int| 0 <= i < k ==> #[trigger] x[i] == y[i],
        k == x.len() || x[k] < y[k],
    ensures
        candidate_less(a, b),
        !candidate_less(b, a),
{
    let p = numbers_of(x);
    let q = numbers_of(y);
    assert forall|i: int| 0 <= i < k implies #[trigger] p[i] == q[i] by {
        assert(x[i] == y[i]);
    }
    assert(less_at(p, q, k));
    law_dictionary_order(p, q);
    law_candidate_order_is_total(a, b);
}

/// Names whose versions are the same, or that are no releases, go by their letters.
pub proof fn law_other_names_go_by_their_letters(a: Seq<char>, b: Seq<char>, k: int)
    requires
        version(a) == version(b),
        0 <= k <= a.len(),
        k < b.len(),
        forall|i: int| 0 <= i < k ==> #[trigger] a[i] == b[i],
        k == a.len() || a[k] < b[k],
    ensures
        candidate_less(a, b),
        !candidate_less(b, a),
{
    let p = codes_of(a);
    let q = codes_of(b);
    assert forall|i: int| 0 <= i < k implies #[trigger] p[i] == q[i] by {
        assert(a[i] == b[i]);
    }
    assert(less_at(p, q, k));
    law_dictionary_order(p, q);
    law_candidate_order_is_total(a, b);
}

/// What is picked is one of the names. It is the one that was asked for by name, if
/// that is among them. Otherwise it is a release, if there is one, and then no other
/// release is below it where the lowest is preferred, or above it where not; and
/// where there is no release, the same goes for all names.
pub proof fn law_the_pick_is_the_best(
    names: Seq<Seq<char>>,
    preference: Preference,
    name: Seq<char>,
    other: Seq<char>,
)
    requires
        picks(names, preference, name),
        names.contains(other),
    ensures
        names.contains(name),
        preference == Preference::Exact(other) ==> name == other,
        (preference matches Preference::Exact(wanted) ==> !names.contains(wanted)) ==> {
            let comparable = version(other) is Some || forall|m: Seq<char>| #[trigger]
                names.contains(m) ==> version(m) is None;
            &&& version(other) is Some ==> version(name) is Some
            &&& comparable && preference is Lowest ==> !candidate_less(other, name)
            &&& comparable && !(preference is Lowest) ==> !candidate_less(name, other)
        },
{
    if version(other) is Some && version(name) is None {
        assert(names.contains(other));
    }
}

/// A file that is asked for by name and is not there is as good as no wish at all.
pub proof fn law_a_wish_that_cannot_be_met_is_ignored(
    names: Seq<Seq<char>>,
    wanted: Seq<char>,
    name: Seq<char>,
)
    requires
        !names.contains(wanted),
    ensures
        picks(names, Preference::Exact(wanted), name) <==> picks(names, Preference::Highest, name),
{
}

/// `lowest` asks for the lowest, the name of a runtime for that very file, and
/// everything else for the highest.
pub proof fn law_what_a_setting_asks_for(t: Seq<char>)
    ensures
        preference_of("lowest"@) == Preference::Lowest,
        preference_of("libcupti.so."@ + t) == Preference::Exact("libcupti.so."@ + t),
        t != "lowest"@ && !"libcupti.so."@.is_prefix_of(t) ==> preference_of(t)
            == Preference::Highest,
{
    reveal_strlit("lowest");
    reveal_strlit("libcupti.so.");
    let named = "libcupti.so."@ + t;
    assert(named.subrange(0, "libcupti.so."@.len() as int) =~= "libcupti.so."@);
    assert(named[1] == 'i');
    assert("lowest"@[1] == 'o');
}

/// The prefix that all runtimes share does not count, however often it is there.
pub proof fn law_the_prefix_of_a_name_does_not_count(name: Seq<char>)
    ensures
        version("libcupti.so."@ + name) == version(name),
{
    reveal_strlit("libcupti.so.");
    law_stripped(name, CUPTI_FILE_PREFIX@);
}

/// A preference says what it holds.
pub proof fn law_a_preference_says_what_it_holds(preference: CuptiPreference)
    ensures
        preference@ is Highest <==> preference is Highest,
        preference@ is Lowest <==> preference is Lowest,
        preference matches CuptiPreference::Exact(name) ==> preference@ == Preference::Exact(
            name@,
        ),
{
}

/// How one thing stands to another in an order.
#[derive(Clone, Copy, Debug, PartialEq, Eq, Structural)]
pub enum Rank {
    Below,
    Same,
    Above,
}

/// Whether `rank` is how `a` stands to `b` in dictionary order.
pub open spec fn lex_rank(rank: Rank, a: Seq<int>, b: Seq<int>) -> bool {
    match rank {
        Rank::Below => lex_less(a, b),
        Rank::Same => a == b,
        Rank::Above => lex_less(b, a),
    }
}

proof fn lemma_lex_skip(a: Seq<int>, b: Seq<int>, i: int)
    requires
        0 <= i <= a.len(),
        i <= b.len(),
        forall|k: int| 0 <= k < i ==> a[k] == b[k],
    ensures
        lex_less(a, b) == lex_less(a.skip(i), b.skip(i)),
    decreases i,
{
    if i > 0 {
        let x = a.drop_first();
        let y = b.drop_first();
        assert forall|k: int| 0 <= k < i - 1 implies x[k] == y[k] by {
            assert(a[k + 1] == b[k + 1]);
        }
        lemma_lex_skip(x, y, i - 1);
        assert(x.skip(i - 1) =~= a.skip(i));
        assert(y.skip(i - 1) =~= b.skip(i));
    } else {
        assert(a.skip(0) =~= a);
        assert(b.skip(0) =~= b);
    }
}

fn rank_numbers(a: &Vec<u64>, b: &Vec<u64>) -> (r: Rank)
    ensures
        lex_rank(r, numbers_of(a@), numbers_of(b@)),
{
    let ghost x = numbers_of(a@);
    let ghost y = numbers_of(b@);
    let mut i: usize = 0;
    while i < a.len() && i < b.len()
        invariant
            i <= a.len(),
            i <= b.len(),
            x == numbers_of(a@),
            y == numbers_of(b@),
            forall|k: int| 0 <= k < i ==> x[k] == y[k],
        decreases a.len() - i,
    {
        proof {
            lemma_lex_skip(x, y, i as int);
            lemma_lex_skip(y, x, i as int);
        }
        if a[i] < b[i] {
            return Rank::Below;
        }
        if a[i] > b[i] {
            return Rank::Above;
        }
        i += 1;
    }
    proof {
        lemma_lex_skip(x, y, i as int);
        lemma_lex_skip(y, x, i as int);
    }
    if i < b.len() {
        Rank::Below
    } else if i < a.len() {
        Rank::Above
    } else {
        assert(x =~= y);
        Rank::Same
    }
}

fn rank_text(a: &str, b: &str) -> (r: Rank)
    ensures
        lex_rank(r, codes_of(a@), codes_of(b@)),
{
    let first = chars_of(a);
    let second = chars_of(b);
    let ghost x = codes_of(a@);
    let ghost y = codes_of(b@);
    let mut i: usize = 0;
    while i < first.len() && i < second.len()
        invariant
            i <= first.len(),
            i <= second.len(),
            first@ == a@,
            second@ == b@,
            x == codes_of(a@),
            y == codes_of(b@),
            forall|k: int| 0 <= k < i ==> x[k] == y[k],
        decreases first.len() - i,
    {
        proof {
            lemma_lex_skip(x, y, i as int);
            lemma_lex_skip(y, x, i as int);
        }
        if first[i] < second[i] {
            return Rank::Below;
        }
        if first[i] > second[i] {
            return Rank::Above;
        }
        i += 1;
    }
    proof {
        lemma_lex_skip(x, y, i as int);
        lemma_lex_skip(y, x, i as int);
    }
    if i < second.len() {
        Rank::Below
    } else if i < first.len() {
        Rank::Above
    } else {
        assert(x =~= y);
        Rank::Same
    }
}

/// The version in the file name of a release, for ranking it: compared number by
/// number, so that `2025.2.1` outranks `2024.3.2` and `10.2.75` outranks
/// `9.0.176`. `None` for a name that is no release.
#[verifier::spinoff_prover]
#[verifier::rlimit(40)]
pub fn cupti_version_key(file_name: &str) -> (r: Option<Vec<u64>>)
    ensures
        match r {
            Some(v) => version(file_name@) == Some(v@),
            None => version(file_name@) is None,
        },
{
    let rest = strip_prefixes(file_name, CUPTI_FILE_PREFIX);
    let chars = chars_of(rest);
    let n: usize = chars.len();
    let ghost cut = at('.');
    let mut numbers: Vec<u64> = Vec::new();
    let mut readable: bool = true;
    let mut dots: usize = 0;
    let mut start: usize = 0;
    let mut i: usize = 0;
    assert(chars@.take(0) =~= Seq::empty());
    assert(chars@.subrange(0, 0) =~= Seq::empty());
    while i < n
        invariant
            n == chars.len(),
            start <= i <= n,
            dots <= i,
            cut == at('.'),
            ({
                let p = pieces(chars@.take(i as int), cut);
                &&& p.len() == dots + 1
                &&& p.last() == chars@.subrange(start as int, i as int)
                &&& readable == forall|k: int|
                    0 <= k < dots ==> parsed(#[trigger] p[k]) is Some
                &&& readable ==> numbers.len() == dots && forall|k: int|
                    0 <= k < dots ==> parsed(#[trigger] p[k]) == Some(numbers@[k])
            }),
        decreases n - i,
    {
        let ghost p = pieces(chars@.take(i as int), cut);
        let ghost q = pieces(chars@.take(i + 1), cut);
        assert(chars@.take(i + 1).drop_last() =~= chars@.take(i as int));
        if chars[i] == '.' {
            let part = parse_u64(&chars, start, i);
            assert(q =~= p.push(Seq::empty()));
            assert(q[dots as int] == p.last());
            assert(forall|k: int| 0 <= k < dots ==> q[k] == p[k]);
            match part {
                Some(number) => {
                    if readable {
                        numbers.push(number);
                    } else {
                        assert(exists|k: int| 0 <= k < dots && parsed(#[trigger] q[k]) is None) by {
                            let k = choose|k: int|
                                0 <= k < dots && parsed(#[trigger] p[k]) is None;
                            assert(parsed(q[k]) is None);
                        }
                    }
                },
                None => {
                    assert(parsed(q[dots as int]) is None);
                    readable = false;
                },
            }
            dots += 1;
            start = i + 1;
            assert(chars@.subrange(i + 1, i + 1) =~= Seq::empty());
        } else {
            assert(q =~= p.drop_last().push(p.last().push(chars@[i as int])));
            assert(forall|k: int| 0 <= k < dots ==> q[k] == p[k]);
            assert(chars@.subrange(start as int, i + 1) =~= chars@.subrange(
                start as int,
                i as int,
            ).push(chars@[i as int]));
            proof {
                if !readable {
                    let k = choose|k: int| 0 <= k < dots && parsed(#[trigger] p[k]) is None;
                    assert(parsed(q[k]) is None);
                }
            }
        }
        i += 1;
    }
    assert(chars@.take(n as int) =~= chars@);
    let ghost parts = pieces(chars@, cut);
    if dots < 2 {
        return None;
    }
    let part = parse_u64(&chars, start, n);
    assert(parts[dots as int] == parts.last());
    match part {
        Some(number) => {
            if readable {
                numbers.push(number);
                assert(numbers@ =~= parts.map_values(|part: Seq<char>| parsed(part)->0));
                Some(numbers)
            } else {
                None
            }
        },
        None => None,
    }
}

/// How `a` stands to `b` in the order of candidates.
fn rank_candidates(a: &str, b: &str) -> (r: Rank)
    ensures
        match r {
            Rank::Below => candidate_less(a@, b@),
            Rank::Same => a@ == b@,
            Rank::Above => candidate_less(b@, a@),
        },
{
    let first = cupti_version_key(a);
    let second = cupti_version_key(b);
    let by_version: Rank = match (&first, &second) {
        (None, None) => Rank::Same,
        (None, Some(_)) => Rank::Below,
        (Some(_), None) => Rank::Above,
        (Some(x), Some(y)) => {
            let rank: Rank = rank_numbers(x, y);
            proof {
                if rank is Same {
                    lemma_numbers_injective(x@, y@);
                }
            }
            rank
        },
    };
    match by_version {
        Rank::Same => {
            let rank: Rank = rank_text(a, b);
            proof {
                if rank is Same {
                    lemma_codes_injective(a@, b@);
                }
            }
            rank
        },
        other => other,
    }
}

/// The order of candidate file names: by version, and by the name where the
/// versions are the same, so that the choice never depends on the order in which
/// a directory was listed.
pub fn compare_cupti_candidates(a: &str, b: &str) -> (r: Ordering)
    ensures
        r == Ordering::Less <==> candidate_less(a@, b@),
        r == Ordering::Equal <==> a@ == b@,
        r == Ordering::Greater <==> candidate_less(b@, a@),
{
    proof {
        law_candidate_order_is_total(a@, b@);
        law_candidate_order_is_total(b@, b@);
    }
    match rank_candidates(a, b) {
        Rank::Below => Ordering::Less,
        Rank::Same => Ordering::Equal,
        Rank::Above => Ordering::Greater,
    }
}

/// The place of `wanted` in `candidates`, if it is there.
fn find_name(candidates: &[String], wanted: &str) -> (r: Option<usize>)
    ensures
        match r {
            Some(k) => k < candidates@.len() && candidates@[k as int]@ == wanted@,
            None => !texts(candidates@).contains(wanted@),
        },
{
    let mut i: usize = 0;
    while i < candidates.len()
        invariant
            i <= candidates@.len(),
            forall|k: int| 0 <= k < i ==> candidates@[k]@ != wanted@,
        decreases candidates@.len() - i,
    {
        if same_text(candidates[i].as_str(), wanted) {
            return Some(i);
        }
        i += 1;
    }
    assert forall|k: int| 0 <= k < texts(candidates@).len() implies texts(candidates@)[k]
        != wanted@ by {
        assert(texts(candidates@)[k] == candidates@[k]@);
    }
    None
}

/// Whether any of `candidates` is a release.
fn any_release(candidates: &[String]) -> (r: bool)
    ensures
        r == exists|m: Seq<char>| #[trigger]
            texts(candidates@).contains(m) && version(m) is Some,
{
    let mut i: usize = 0;
    while i < candidates.len()
        invariant
            i <= candidates@.len(),
            forall|k: int| 0 <= k < i ==> version(#[trigger] candidates@[k]@) is None,
        decreases candidates@.len() - i,
    {
        if cupti_version_key(candidates[i].as_str()).is_some() {
            assert(texts(candidates@)[i as int] == candidates@[i as int]@);
            assert(texts(candidates@).contains(candidates@[i as int]@));
            return true;
        }
        i += 1;
    }
    assert forall|m: Seq<char>| #[trigger] texts(candidates@).contains(m) implies version(
        m,
    ) is None by {
        let k = texts(candidates@).index_of(m);
        assert(m == candidates@[k]@);
    }
    false
}

/// Picks which of the candidates in one directory to stage, given that every one
/// of them has the SONAME that is needed.
///
/// A name that is no release is used only where there is no release. A name that
/// is asked for outright is honoured whether it is a release or not.
pub fn pick_cupti_candidate<'a>(
    candidates: &'a [String],
    preference: &CuptiPreference,
) -> (r: Option<&'a str>)
    ensures
        match r {
            Some(name) => picks(texts(candidates@), preference@, name@),
            None => candidates@.len() == 0,
        },
{
    if let CuptiPreference::Exact(wanted) = preference {
        if let Some(k) = find_name(candidates, wanted.as_str()) {
            assert(texts(candidates@)[k as int] == wanted@);
            return Some(candidates[k].as_str());
        }
    }
    let lowest: bool = match preference {
        CuptiPreference::Lowest => true,
        _ => false,
    };
    let releases_only: bool = any_release(candidates);
    let ghost names = texts(candidates@);
    let mut best: Option<usize> = None;
    let mut i: usize = 0;
    while i < candidates.len()
        invariant
            i <= candidates@.len(),
            names == texts(candidates@),
            lowest == (preference@ is Lowest),
            releases_only == exists|m: Seq<char>| #[trigger]
                names.contains(m) && version(m) is Some,
            match best {
                None => forall|k: int| 0 <= k < i ==> !ranked(names, #[trigger] names[k]),
                Some(b) => {
                    &&& b < i
                    &&& ranked(names, names[b as int])
                    &&& forall|k: int|
                        0 <= k < i && ranked(names, #[trigger] names[k]) ==> (if lowest {
                            !candidate_less(names[k], names[b as int])
                        } else {
                            !candidate_less(names[b as int], names[k])
                        })
                },
            },
        decreases candidates@.len() - i,
    {
        let name: &str = candidates[i].as_str();
        assert(names[i as int] == name@);
        assert(names.contains(name@));
        let eligible: bool = !releases_only || cupti_version_key(name).is_some();
        assert(eligible == ranked(names, name@));
        if eligible {
            proof {
                law_candidate_order_is_total(name@, name@);
            }
            match best {
                None => {
                    best = Some(i);
                },
                Some(b) => {
                    let ghost held = names[b as int];
                    assert(held == candidates@[b as int]@);
                    let rank: Rank = rank_candidates(name, candidates[b].as_str());
                    proof {
                        law_candidate_order_is_total(name@, held);
                    }
                    let better: bool = if lowest {
                        rank == Rank::Below
                    } else {
                        rank == Rank::Above
                    };
                    if better {
                        proof {
                            assert forall|k: int|
                                0 <= k < i && ranked(names, #[trigger] names[k]) implies (
                            if lowest {
                                !candidate_less(names[k], name@)
                            } else {
                                !candidate_less(name@, names[k])
                            }) by {
                                if lowest {
                                    if candidate_less(names[k], name@) {
                                        law_candidate_order_is_transitive(
                                            names[k],
                                            name@,
                                            held,
                                        );
                                    }
                                } else if candidate_less(name@, names[k]) {
                                    law_candidate_order_is_transitive(held, name@, names[k]);
                                }
                            }
                        }
                        best = Some(i);
                    }
                },
            }
        }
        i += 1;
    }
    match best {
        Some(b) => {
            assert(names[b as int] == candidates@[b as int]@);
            assert(names.contains(names[b as int]));
            assert forall|m: Seq<char>| #[trigger] names.contains(m) && ranked(names, m) implies (
            if preference@ is Lowest {
                !candidate_less(m, names[b as int])
            } else {
                !candidate_less(names[b as int], m)
            }) by {
                let k = names.index_of(m);
                assert(names[k] == m);
            }
            Some(candidates[b].as_str())
        },
        None => {
            proof {
                if names.len() > 0 {
                    assert(names.contains(names[0]));
                    assert(!ranked(names, names[0]));
                    let m = choose|m: Seq<char>| #[trigger]
                        names.contains(m) && version(m) is Some;
                    let k = names.index_of(m);
                    assert(names[k] == m);
                    assert(ranked(names, names[k]));
                }
            }
            None
        },
    }
}

/// The preference that the variable `AIPROF_CUPTI_PREFER` names.
pub fn parse_cupti_preference(raw: Option<&str>) -> (r: CuptiPreference)
    ensures
        r@ == preference_of(setting(raw)),
{
    let name: &str = read_setting(raw);
    if same_text(name, "lowest") {
        CuptiPreference::Lowest
    } else if begins_with(name, CUPTI_FILE_PREFIX) {
        CuptiPreference::Exact(name.to_owned())
    } else {
        CuptiPreference::Highest
    }
}

/// Whether the variable `AIPROF_CUPTI_PREFER` holds something that
/// [`parse_cupti_preference`] understands. What it does not is worth a warning:
/// a typo is no policy.
pub fn recognises_preference(raw: Option<&str>) -> (r: bool)
    ensures
        r == ({
            let t = setting(raw);
            ||| t == ""@
            ||| t == "highest"@
            ||| t == "lowest"@
            ||| CUPTI_FILE_PREFIX@.is_prefix_of(t)
        }),
{
    let name: &str = read_setting(raw);
    same_text(name, "") || same_text(name, "highest") || same_text(name, "lowest") || begins_with(
        name,
        CUPTI_FILE_PREFIX,
    )
}

} // verus!
