//! ConfigParser: turns configuration text into a key-value mapping.
//!
//! Each line is handled independently: everything from the first `#` on is
//! discarded, blank remainders are skipped, the rest is split at the first
//! `=` (lines without one contribute nothing), and both sides are trimmed.
//! A later line for an existing key overwrites the earlier value. Parsing
//! never fails: malformed lines degrade to nothing.

use vstd::prelude::*;
use vstd::string::*;

use crate::config_map::ConfigMap;

verus! {

/// The whitespace characters that trimming and blank-line detection honour.
pub open spec fn is_space(c: char) -> bool {
    c == ' ' || c == '\t' || c == '\n' || c == '\r' || c == '\x0b' || c == '\x0c'
}

/// Whether `c` counts as whitespace.
pub fn is_space_char(c: char) -> (r: bool)
    ensures
        r == is_space(c),
{
    c == ' ' || c == '\t' || c == '\n' || c == '\r' || c == '\x0b' || c == '\x0c'
}

/// The index of the first occurrence of `c` in `s`, if any.
pub open spec fn find_char(s: Seq<char>, c: char) -> Option<int>
    decreases s.len(),
{
    if s.len() == 0 {
        None
    } else if s[0] == c {
        Some(0int)
    } else {
        match find_char(s.drop_first(), c) {
            None => None,
            Some(i) => Some(i + 1),
        }
    }
}

/// `find_char` returns the position of the first occurrence.
pub proof fn lemma_find_char_at(s: Seq<char>, c: char, i: int)
    requires
        0 <= i < s.len(),
        s[i] == c,
        forall|j: int| 0 <= j < i ==> s[j] != c,
    ensures
        find_char(s, c) == Some(i),
    decreases i,
{
    if i > 0 {
        lemma_find_char_at(s.drop_first(), c, i - 1);
    }
}

/// `find_char` reports absence exactly when no position holds `c`.
pub proof fn lemma_find_char_none(s: Seq<char>, c: char)
    requires
        forall|j: int| 0 <= j < s.len() ==> s[j] != c,
    ensures
        find_char(s, c) is None,
    decreases s.len(),
{
    if s.len() > 0 {
        lemma_find_char_none(s.drop_first(), c);
    }
}

/// Everything before the first comment marker; the whole line if it has none.
pub open spec fn strip_comment(line: Seq<char>) -> Seq<char> {
    match find_char(line, '#') {
        None => line,
        Some(i) => line.subrange(0, i),
    }
}

/// Empty or all whitespace.
pub open spec fn is_blank(s: Seq<char>) -> bool {
    forall|j: int| 0 <= j < s.len() ==> is_space(#[trigger] s[j])
}

/// `s` without leading whitespace.
pub open spec fn trim_start(s: Seq<char>) -> Seq<char>
    decreases s.len(),
{
    if s.len() > 0 && is_space(s[0]) {
        trim_start(s.drop_first())
    } else {
        s
    }
}

/// `s` without trailing whitespace.
pub open spec fn trim_end(s: Seq<char>) -> Seq<char>
    decreases s.len(),
{
    if s.len() > 0 && is_space(s[s.len() - 1]) {
        trim_end(s.drop_last())
    } else {
        s
    }
}

/// `s` without leading and trailing whitespace.
pub open spec fn trim(s: Seq<char>) -> Seq<char> {
    trim_end(trim_start(s))
}

proof fn lemma_trim_start_at(s: Seq<char>, lo: int)
    requires
        0 <= lo <= s.len(),
        forall|j: int| 0 <= j < lo ==> is_space(#[trigger] s[j]),
        lo == s.len() || !is_space(s[lo]),
    ensures
        trim_start(s) == s.subrange(lo, s.len() as int),
    decreases lo,
{
    if lo == 0 {
        assert(s.subrange(0, s.len() as int) =~= s);
    } else {
        lemma_trim_start_at(s.drop_first(), lo - 1);
        assert(s.drop_first().subrange(lo - 1, s.drop_first().len() as int) =~= s.subrange(
            lo,
            s.len() as int,
        ));
    }
}

proof fn lemma_trim_end_at(s: Seq<char>, hi: int)
    requires
        0 <= hi <= s.len(),
        forall|j: int| hi <= j < s.len() ==> is_space(#[trigger] s[j]),
        hi == 0 || !is_space(s[hi - 1]),
    ensures
        trim_end(s) == s.subrange(0, hi),
    decreases s.len() - hi,
{
    if hi == s.len() {
        assert(s.subrange(0, s.len() as int) =~= s);
    } else {
        lemma_trim_end_at(s.drop_last(), hi);
        assert(s.drop_last().subrange(0, hi) =~= s.subrange(0, hi));
    }
}

/// Trimming keeps exactly the characters between the first and the last
/// non-whitespace position.
pub proof fn lemma_trim_range(s: Seq<char>, lo: int, hi: int)
    requires
        0 <= lo <= hi <= s.len(),
        forall|j: int| 0 <= j < lo ==> is_space(#[trigger] s[j]),
        forall|j: int| hi <= j < s.len() ==> is_space(#[trigger] s[j]),
        lo == hi || (!is_space(s[lo]) && !is_space(s[hi - 1])),
    ensures
        trim(s) == s.subrange(lo, hi),
{
    if lo == hi {
        lemma_trim_start_at(s, s.len() as int);
        assert(trim_start(s) =~= Seq::<char>::empty());
        assert(s.subrange(lo, hi) =~= Seq::<char>::empty());
    } else {
        lemma_trim_start_at(s, lo);
        let t = s.subrange(lo, s.len() as int);
        lemma_trim_end_at(t, hi - lo);
        assert(t.subrange(0, hi - lo) =~= s.subrange(lo, hi));
    }
}

/// What a single line contributes: `None` if, after comment stripping, the
/// line is blank or holds no `=`; otherwise the trimmed key and value split
/// at the first `=`.
pub open spec fn parse_line(line: Seq<char>) -> Option<(Seq<char>, Seq<char>)> {
    let content = strip_comment(line);
    if is_blank(content) {
        None
    } else {
        match find_char(content, '=') {
            None => None,
            Some(i) => Some(
                (trim(content.subrange(0, i)), trim(content.subrange(i + 1, content.len() as int))),
            ),
        }
    }
}

/// The lines of a text, split at every newline character.
pub open spec fn split_lines(s: Seq<char>) -> Seq<Seq<char>>
    decreases s.len(),
{
    if s.len() == 0 {
        seq![s]
    } else if s[0] == '\n' {
        seq![Seq::<char>::empty()] + split_lines(s.drop_first())
    } else {
        let rest = split_lines(s.drop_first());
        seq![seq![s[0]] + rest[0]] + rest.drop_first()
    }
}

proof fn lemma_split_lines_nonempty(s: Seq<char>)
    ensures
        split_lines(s).len() >= 1,
    decreases s.len(),
{
    if s.len() > 0 {
        lemma_split_lines_nonempty(s.drop_first());
    }
}

/// A text without newlines is a single line.
pub proof fn lemma_split_lines_whole(s: Seq<char>)
    requires
        forall|j: int| 0 <= j < s.len() ==> s[j] != '\n',
    ensures
        split_lines(s) == seq![s],
    decreases s.len(),
{
    if s.len() > 0 {
        lemma_split_lines_whole(s.drop_first());
        let rest = split_lines(s.drop_first());
        assert(seq![s[0]] + rest[0] =~= s);
        assert(rest.drop_first() =~= Seq::<Seq<char>>::empty());
        assert(split_lines(s) =~= seq![s]);
    }
}

/// Splitting at the first newline: the prefix is the first line and the
/// remainder splits on its own.
pub proof fn lemma_split_lines_at(s: Seq<char>, i: int)
    requires
        0 <= i < s.len(),
        s[i] == '\n',
        forall|j: int| 0 <= j < i ==> s[j] != '\n',
    ensures
        split_lines(s) == seq![s.subrange(0, i)] + split_lines(s.subrange(i + 1, s.len() as int)),
    decreases i,
{
    if i == 0 {
        assert(s.subrange(0, 0) =~= Seq::<char>::empty());
        assert(s.subrange(1, s.len() as int) =~= s.drop_first());
    } else {
        let tail = s.drop_first();
        lemma_split_lines_at(tail, i - 1);
        assert(tail.subrange(0, i - 1) =~= s.subrange(1, i));
        assert(tail.subrange(i, tail.len() as int) =~= s.subrange(i + 1, s.len() as int));
        let rest = split_lines(tail);
        let after = split_lines(s.subrange(i + 1, s.len() as int));
        lemma_split_lines_nonempty(tail);
        assert(rest == seq![s.subrange(1, i)] + after);
        assert(rest[0] == s.subrange(1, i));
        assert(rest.drop_first() =~= after);
        assert(seq![s[0]] + rest[0] =~= s.subrange(0, i));
        assert(split_lines(s) =~= seq![s.subrange(0, i)] + after);
    }
}

/// Folds one line into the mapping built so far.
pub open spec fn insert_line(
    m: Map<Seq<char>, Seq<char>>,
    line: Seq<char>,
) -> Map<Seq<char>, Seq<char>> {
    match parse_line(line) {
        None => m,
        Some(kv) => m.insert(kv.0, kv.1),
    }
}

/// The mapping a sequence of lines denotes, folded in document order so
/// that the last write wins.
pub open spec fn map_of_lines(lines: Seq<Seq<char>>) -> Map<Seq<char>, Seq<char>>
    decreases lines.len(),
{
    if lines.len() == 0 {
        Map::empty()
    } else {
        insert_line(map_of_lines(lines.drop_last()), lines.last())
    }
}

pub proof fn lemma_map_of_lines_push(lines: Seq<Seq<char>>, line: Seq<char>)
    ensures
        map_of_lines(lines.push(line)) == insert_line(map_of_lines(lines), line),
{
    assert(lines.push(line).drop_last() =~= lines);
    assert(lines.push(line).last() == line);
}

/// The mapping an entire configuration text denotes.
pub open spec fn parse_config_spec(text: Seq<char>) -> Map<Seq<char>, Seq<char>> {
    map_of_lines(split_lines(text))
}

/// Law (last write wins): if a line parses to `(k, v)` and no later line
/// parses with key `k`, the denoted mapping binds `k` to `v`.
pub proof fn lemma_map_of_lines_last_write(
    lines: Seq<Seq<char>>,
    i: int,
    k: Seq<char>,
    v: Seq<char>,
)
    requires
        0 <= i < lines.len(),
        parse_line(lines[i]) == Some((k, v)),
        forall|j: int|
            i < j < lines.len() && #[trigger] parse_line(lines[j]) is Some ==> parse_line(
                lines[j],
            ).unwrap().0 != k,
    ensures
        map_of_lines(lines).contains_pair(k, v),
    decreases lines.len(),
{
    let prefix = lines.drop_last();
    let last = lines.last();
    if i == lines.len() - 1 {
        assert(map_of_lines(lines) == map_of_lines(prefix).insert(k, v));
    } else {
        assert(forall|x: int| 0 <= x < prefix.len() ==> prefix[x] == lines[x]);
        lemma_map_of_lines_last_write(prefix, i, k, v);
        match parse_line(last) {
            None => {
                assert(map_of_lines(lines) == map_of_lines(prefix));
            },
            Some(kv0) => {
                assert(parse_line(lines[lines.len() - 1]) is Some);
                assert(kv0.0 != k);
            },
        }
    }
}

/// No two lines that both parse carry the same key.
pub open spec fn distinct_line_keys(lines: Seq<Seq<char>>) -> bool {
    forall|i: int, j: int|
        0 <= i < j < lines.len() && #[trigger] parse_line(lines[i]) is Some
            && #[trigger] parse_line(lines[j]) is Some ==> parse_line(lines[i]).unwrap().0
            != parse_line(lines[j]).unwrap().0
}

/// With distinct keys, the denoted mapping holds a pair exactly when some
/// line parses to it — a characterization independent of line order.
pub proof fn lemma_map_of_lines_membership(lines: Seq<Seq<char>>)
    requires
        distinct_line_keys(lines),
    ensures
        forall|k: Seq<char>, v: Seq<char>|
            #[trigger] map_of_lines(lines).contains_pair(k, v) <==> exists|i: int|
                0 <= i < lines.len() && #[trigger] parse_line(lines[i]) == Some((k, v)),
    decreases lines.len(),
{
    let m = map_of_lines(lines);
    if lines.len() == 0 {
        assert(m =~= Map::<Seq<char>, Seq<char>>::empty());
        assert(forall|k: Seq<char>, v: Seq<char>| !(#[trigger] m.contains_pair(k, v)));
    } else {
        let prefix = lines.drop_last();
        let last = lines.last();
        assert(forall|i: int| 0 <= i < prefix.len() ==> prefix[i] == lines[i]);
        lemma_map_of_lines_membership(prefix);
        let m0 = map_of_lines(prefix);
        assert forall|k: Seq<char>, v: Seq<char>| #[trigger] m.contains_pair(k, v) implies exists|
            i: int,
        | 0 <= i < lines.len() && #[trigger] parse_line(lines[i]) == Some((k, v)) by {
            match parse_line(last) {
                None => {
                    let i = choose|i: int|
                        0 <= i < prefix.len() && #[trigger] parse_line(prefix[i]) == Some((k, v));
                    assert(parse_line(lines[i]) == Some((k, v)));
                },
                Some(kv0) => {
                    if k == kv0.0 {
                        assert(parse_line(lines[lines.len() - 1]) == Some((k, v)));
                    } else {
                        assert(m0.contains_pair(k, v));
                        let i = choose|i: int|
                            0 <= i < prefix.len() && #[trigger] parse_line(prefix[i]) == Some(
                                (k, v),
                            );
                        assert(parse_line(lines[i]) == Some((k, v)));
                    }
                },
            }
        }
        assert forall|k: Seq<char>, v: Seq<char>|
            (exists|i: int|
                0 <= i < lines.len() && #[trigger] parse_line(lines[i]) == Some(
                    (k, v),
                )) implies #[trigger] m.contains_pair(k, v) by {
            let i = choose|i: int|
                0 <= i < lines.len() && #[trigger] parse_line(lines[i]) == Some((k, v));
            match parse_line(last) {
                None => {
                    assert(i < prefix.len());
                    assert(parse_line(prefix[i]) == Some((k, v)));
                    assert(m0.contains_pair(k, v));
                },
                Some(kv0) => {
                    if i == lines.len() - 1 {
                        assert(k == kv0.0 && v == kv0.1);
                    } else {
                        assert(parse_line(prefix[i]) == Some((k, v)));
                        assert(m0.contains_pair(k, v));
                        assert(k != kv0.0);
                    }
                },
            }
        }
    }
}

/// Distinct keys carry over to any reordering of the lines.
pub proof fn lemma_distinct_keys_permutation(lines1: Seq<Seq<char>>, lines2: Seq<Seq<char>>)
    requires
        lines1.to_multiset() == lines2.to_multiset(),
        distinct_line_keys(lines1),
    ensures
        distinct_line_keys(lines2),
{
    broadcast use vstd::seq_lib::group_to_multiset_ensures;
    broadcast use vstd::multiset::group_multiset_axioms;

    assert forall|i: int, j: int|
        0 <= i < j < lines2.len() && #[trigger] parse_line(lines2[i]) is Some
            && #[trigger] parse_line(lines2[j]) is Some implies parse_line(
        lines2[i],
    ).unwrap().0 != parse_line(lines2[j]).unwrap().0 by {
        let a = lines2[i];
        let b = lines2[j];
        if parse_line(a).unwrap().0 == parse_line(b).unwrap().0 {
            if a == b {
                let r = lines2.remove(i);
                assert(r.to_multiset() == lines2.to_multiset().remove(a));
                assert(r[j - 1] == a);
                assert(r.contains(a));
                assert(r.to_multiset().count(a) > 0);
                assert(lines2.to_multiset().remove(a).count(a) == lines2.to_multiset().count(a)
                    - 1);
                assert(lines1.to_multiset().count(a) >= 2);
                assert(lines1.contains(a));
                let i1 = choose|x: int| 0 <= x < lines1.len() && lines1[x] == a;
                let r1 = lines1.remove(i1);
                assert(r1.to_multiset() == lines1.to_multiset().remove(a));
                assert(r1.to_multiset().count(a) >= 1);
                assert(r1.contains(a));
                let x2 = choose|x: int| 0 <= x < r1.len() && r1[x] == a;
                let i2: int = if x2 < i1 { x2 } else { x2 + 1 };
                assert(lines1[i2] == a);
                let lo = if i1 < i2 { i1 } else { i2 };
                let hi = if i1 < i2 { i2 } else { i1 };
                assert(parse_line(lines1[lo]) is Some && parse_line(lines1[hi]) is Some);
                assert(false);
            } else {
                assert(lines2.contains(a) && lines2.contains(b));
                assert(lines2.to_multiset().count(a) > 0 && lines2.to_multiset().count(b) > 0);
                assert(lines1.contains(a) && lines1.contains(b));
                let ia = choose|x: int| 0 <= x < lines1.len() && lines1[x] == a;
                let ib = choose|x: int| 0 <= x < lines1.len() && lines1[x] == b;
                let lo = if ia < ib { ia } else { ib };
                let hi = if ia < ib { ib } else { ia };
                assert(parse_line(lines1[lo]) is Some && parse_line(lines1[hi]) is Some);
                assert(false);
            }
        }
    }
}

/// Law (order independence): two line sequences that hold the same lines,
/// in any order, denote the same mapping, provided no key occurs on two
/// parsing lines. Parsing is deterministic by construction — `parse`
/// returns exactly `parse_config_spec` of its input — so together the two
/// facts give round-trip stability of the parse.
pub proof fn lemma_parse_order_independent(lines1: Seq<Seq<char>>, lines2: Seq<Seq<char>>)
    requires
        lines1.to_multiset() == lines2.to_multiset(),
        distinct_line_keys(lines1),
    ensures
        map_of_lines(lines1) == map_of_lines(lines2),
{
    broadcast use vstd::seq_lib::group_to_multiset_ensures;

    lemma_distinct_keys_permutation(lines1, lines2);
    lemma_map_of_lines_membership(lines1);
    lemma_map_of_lines_membership(lines2);
    let m1 = map_of_lines(lines1);
    let m2 = map_of_lines(lines2);
    assert forall|k: Seq<char>| #[trigger] m1.dom().contains(k) implies m2.dom().contains(k)
        && m2[k] == m1[k] by {
        assert(m1.contains_pair(k, m1[k]));
        let i = choose|i: int|
            0 <= i < lines1.len() && #[trigger] parse_line(lines1[i]) == Some((k, m1[k]));
        assert(lines1.contains(lines1[i]));
        assert(lines1.to_multiset().count(lines1[i]) > 0);
        assert(lines2.contains(lines1[i]));
        let j = choose|x: int| 0 <= x < lines2.len() && lines2[x] == lines1[i];
        assert(parse_line(lines2[j]) == Some((k, m1[k])));
        assert(m2.contains_pair(k, m1[k]));
    }
    assert forall|k: Seq<char>| #[trigger] m2.dom().contains(k) implies m1.dom().contains(k) by {
        assert(m2.contains_pair(k, m2[k]));
        let i = choose|i: int|
            0 <= i < lines2.len() && #[trigger] parse_line(lines2[i]) == Some((k, m2[k]));
        assert(lines2.contains(lines2[i]));
        assert(lines2.to_multiset().count(lines2[i]) > 0);
        assert(lines1.contains(lines2[i]));
        let j = choose|x: int| 0 <= x < lines1.len() && lines1[x] == lines2[i];
        assert(parse_line(lines1[j]) == Some((k, m2[k])));
        assert(m1.contains_pair(k, m2[k]));
    }
    assert(m1.dom() =~= m2.dom());
    assert(m1 =~= m2);
}

/// Law (order independence, stated over texts): two texts whose lines are
/// the same up to order denote the same mapping, provided no key occurs on
/// two parsing lines.
pub proof fn lemma_parse_config_order_independent(text1: Seq<char>, text2: Seq<char>)
    requires
        split_lines(text1).to_multiset() == split_lines(text2).to_multiset(),
        distinct_line_keys(split_lines(text1)),
    ensures
        parse_config_spec(text1) == parse_config_spec(text2),
{
    lemma_parse_order_independent(split_lines(text1), split_lines(text2));
}

/// Finds the first occurrence of `c` in `s`.
fn scan(s: &str, c: char) -> (r: Option<usize>)
    ensures
        match r {
            Some(i) => i < s@.len() && s@[i as int] == c && find_char(s@, c) == Some(i as int),
            None => find_char(s@, c) is None,
        },
{
    let n = s.unicode_len();
    let mut i: usize = 0;
    while i < n
        invariant
            0 <= i <= n,
            n == s@.len(),
            forall|j: int| 0 <= j < i ==> s@[j] != c,
        decreases n - i,
    {
        if s.get_char(i) == c {
            proof {
                lemma_find_char_at(s@, c, i as int);
            }
            return Some(i);
        }
        i += 1;
    }
    proof {
        lemma_find_char_none(s@, c);
    }
    None
}

/// Removes leading and trailing whitespace.
fn trim_slice<'a>(s: &'a str) -> (r: &'a str)
    ensures
        r@ == trim(s@),
{
    let n = s.unicode_len();
    let mut lo: usize = 0;
    while lo < n && is_space_char(s.get_char(lo))
        invariant
            0 <= lo <= n,
            n == s@.len(),
            forall|j: int| 0 <= j < lo ==> is_space(#[trigger] s@[j]),
        decreases n - lo,
    {
        lo += 1;
    }
    let mut hi: usize = n;
    while hi > lo && is_space_char(s.get_char(hi - 1))
        invariant
            lo <= hi <= n,
            n == s@.len(),
            forall|j: int| hi <= j < n ==> is_space(#[trigger] s@[j]),
        decreases hi,
    {
        hi -= 1;
    }
    proof {
        lemma_trim_range(s@, lo as int, hi as int);
    }
    s.substring_char(lo, hi)
}

/// Parses one line, already separated from the rest of the text.
fn parse_line_str(line: &str) -> (r: Option<(String, String)>)
    ensures
        match r {
            Some(kv) => parse_line(line@) == Some((kv.0@, kv.1@)),
            None => parse_line(line@) is None,
        },
{
    let n = line.unicode_len();
    let content_end = match scan(line, '#') {
        Some(i) => i,
        None => n,
    };
    let content = line.substring_char(0, content_end);
    proof {
        if find_char(line@, '#') is None {
            assert(line@.subrange(0, n as int) =~= line@);
        }
        assert(content@ == strip_comment(line@));
    }
    match scan(content, '=') {
        None => {
            proof {
                assert(parse_line(line@) is None);
            }
            None
        },
        Some(eq) => {
            let m = content.unicode_len();
            let key = trim_slice(content.substring_char(0, eq));
            let value = trim_slice(content.substring_char(eq + 1, m));
            proof {
                assert(!is_space('='));
                assert(!is_blank(content@));
            }
            Some((String::from_str(key), String::from_str(value)))
        },
    }
}

/// Parses configuration text into a key-value mapping. Never fails: lines
/// that are blank, comments, or hold no `=` contribute nothing, and a later
/// line for an existing key overwrites the earlier value.
pub fn parse(text: &str) -> (m: ConfigMap)
    ensures
        m@ == parse_config_spec(text@),
{
    let n = text.unicode_len();
    let mut m = ConfigMap::new();
    let mut start: usize = 0;
    let mut i: usize = 0;
    let ghost mut done: Seq<Seq<char>> = Seq::empty();
    proof {
        assert(done + split_lines(text@.subrange(0, n as int)) =~= split_lines(
            text@.subrange(0, n as int),
        ));
        assert(text@.subrange(0, n as int) =~= text@);
    }
    while i < n
        invariant
            0 <= start <= i <= n,
            n == text@.len(),
            m@ == map_of_lines(done),
            split_lines(text@) == done + split_lines(text@.subrange(start as int, n as int)),
            forall|j: int| start <= j < i ==> text@[j] != '\n',
        decreases n - i,
    {
        if text.get_char(i) == '\n' {
            let line = text.substring_char(start, i);
            proof {
                let rest = text@.subrange(start as int, n as int);
                lemma_split_lines_at(rest, i - start);
                assert(rest.subrange(0, i - start) =~= line@);
                assert(rest.subrange(i - start + 1, rest.len() as int) =~= text@.subrange(
                    i + 1,
                    n as int,
                ));
                assert(done + split_lines(rest) =~= done.push(line@) + split_lines(
                    text@.subrange(i + 1, n as int),
                ));
                lemma_map_of_lines_push(done, line@);
            }
            match parse_line_str(line) {
                Some(kv) => m.insert(kv.0, kv.1),
                None => (),
            }
            proof {
                done = done.push(line@);
            }
            start = i + 1;
        }
        i += 1;
    }
    let line = text.substring_char(start, n);
    proof {
        let rest = text@.subrange(start as int, n as int);
        lemma_split_lines_whole(rest);
        assert(done + split_lines(rest) =~= done.push(line@));
        lemma_map_of_lines_push(done, line@);
    }
    match parse_line_str(line) {
        Some(kv) => m.insert(kv.0, kv.1),
        None => (),
    }
    m
}

} // verus!
