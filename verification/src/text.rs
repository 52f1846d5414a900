//! Table text model: characters, trimming, and splitting a raw
//! tab-separated table into trimmed cells, with executable mirrors of
//! every specification function.

use vstd::prelude::*;

verus! {

/// Copy a character vector.
pub fn clone_chars(v: &Vec<char>) -> (r: Vec<char>)
    ensures
        r@ == v@,
{
    let mut out: Vec<char> = Vec::new();
    let mut i: usize = 0;
    proof {
        assert(out@ =~= v@.take(0));
    }
    while i < v.len()
        invariant
            i <= v@.len(),
            out@ == v@.take(i as int),
        decreases v@.len() - i,
    {
        out.push(v[i]);
        i = i + 1;
        proof {
            assert(out@ =~= v@.take(i as int));
        }
    }
    proof {
        assert(v@.take(v@.len() as int) =~= v@);
    }
    out
}

/// The characters of a string slice, in order.
pub fn str_to_chars(s: &str) -> (r: Vec<char>)
    ensures
        r@ == s@,
{
    let n = s.unicode_len();
    let mut out: Vec<char> = Vec::new();
    let mut i: usize = 0;
    proof {
        assert(out@ =~= s@.take(0));
    }
    while i < n
        invariant
            n == s@.len(),
            i <= n,
            out@ == s@.take(i as int),
        decreases n - i,
    {
        out.push(s.get_char(i));
        i = i + 1;
        proof {
            assert(out@ =~= s@.take(i as int));
        }
    }
    proof {
        assert(s@.take(s@.len() as int) =~= s@);
    }
    out
}

/// Copy of the characters of `v` from `from` (inclusive) to `to`
/// (exclusive).
pub fn subvec(v: &Vec<char>, from: usize, to: usize) -> (r: Vec<char>)
    requires
        from <= to <= v@.len(),
    ensures
        r@ == v@.subrange(from as int, to as int),
{
    let mut out: Vec<char> = Vec::new();
    let mut i: usize = from;
    proof {
        assert(out@ =~= v@.subrange(from as int, from as int));
    }
    while i < to
        invariant
            from <= i <= to <= v@.len(),
            out@ == v@.subrange(from as int, i as int),
        decreases to - i,
    {
        out.push(v[i]);
        i = i + 1;
        proof {
            assert(out@ =~= v@.subrange(from as int, i as int));
        }
    }
    out
}

/// Whether two character vectors hold the same characters.
pub fn chars_eq(a: &Vec<char>, b: &Vec<char>) -> (r: bool)
    ensures
        r == (a@ == b@),
{
    if a.len() != b.len() {
        return false;
    }
    let mut i: usize = 0;
    while i < a.len()
        invariant
            i <= a@.len() == b@.len(),
            forall|j: int| 0 <= j < i ==> a@[j] == b@[j],
        decreases a@.len() - i,
    {
        if a[i] != b[i] {
            return false;
        }
        i = i + 1;
    }
    proof {
        assert(a@ =~= b@);
    }
    true
}

/// First index of `c` in `s`, if any.
pub open spec fn spec_find_char(s: Seq<char>, c: char) -> Option<int>
    decreases s.len(),
{
    if s.len() == 0 {
        None
    } else if s[0] == c {
        Some(0int)
    } else {
        match spec_find_char(s.drop_first(), c) {
            None => None,
            Some(i) => Some(i + 1),
        }
    }
}

/// What a successful search means: the index is in range, holds `c`,
/// and nothing before it does.
pub proof fn lemma_find_char_some(s: Seq<char>, c: char)
    requires
        spec_find_char(s, c) is Some,
    ensures
        0 <= spec_find_char(s, c)->Some_0 < s.len(),
        s[spec_find_char(s, c)->Some_0] == c,
        forall|j: int| 0 <= j < spec_find_char(s, c)->Some_0 ==> s[j] != c,
    decreases s.len(),
{
    if s.len() > 0 && s[0] != c {
        lemma_find_char_some(s.drop_first(), c);
        assert forall|j: int| 0 <= j < spec_find_char(s, c)->Some_0 implies s[j] != c by {
            if j > 0 {
                assert(s.drop_first()[j - 1] != c);
            }
        }
    }
}

/// The search is determined by the first position at or past which
/// either `c` stands or the sequence ends.
pub proof fn lemma_find_char_at(s: Seq<char>, c: char, k: int)
    requires
        0 <= k <= s.len(),
        forall|j: int| 0 <= j < k ==> s[j] != c,
        k < s.len() ==> s[k] == c,
    ensures
        spec_find_char(s, c) == (if k < s.len() {
            Some(k)
        } else {
            None
        }),
    decreases k,
{
    if s.len() > 0 && s[0] != c {
        assert forall|j: int| 0 <= j < k - 1 implies s.drop_first()[j] != c by {
            assert(s[j + 1] != c);
        }
        lemma_find_char_at(s.drop_first(), c, k - 1);
    }
}

/// Whether a character is stripped from the ends of a table cell.
pub open spec fn spec_is_blank(c: char) -> bool {
    c == ' ' || c == '\r'
}

/// Executable blank test.
pub fn is_blank(c: char) -> (r: bool)
    ensures
        r == spec_is_blank(c),
{
    c == ' ' || c == '\r'
}

/// `s` without leading blank characters.
pub open spec fn spec_trim_front(s: Seq<char>) -> Seq<char>
    decreases s.len(),
{
    if s.len() > 0 && spec_is_blank(s[0]) {
        spec_trim_front(s.drop_first())
    } else {
        s
    }
}

/// `s` without trailing blank characters.
pub open spec fn spec_trim_back(s: Seq<char>) -> Seq<char>
    decreases s.len(),
{
    if s.len() > 0 && spec_is_blank(s.last()) {
        spec_trim_back(s.drop_last())
    } else {
        s
    }
}

/// `s` without leading or trailing blank characters.
pub open spec fn spec_trim(s: Seq<char>) -> Seq<char> {
    spec_trim_back(spec_trim_front(s))
}

/// Trim a cell's characters.
pub fn trim_chars(v: &Vec<char>) -> (r: Vec<char>)
    ensures
        r@ == spec_trim(v@),
{
    let n = v.len();
    let mut a: usize = 0;
    proof {
        assert(v@.skip(0) =~= v@);
    }
    while a < n && is_blank(v[a])
        invariant
            a <= n == v@.len(),
            spec_trim_front(v@) == spec_trim_front(v@.skip(a as int)),
        decreases n - a,
    {
        proof {
            assert(v@.skip(a as int).drop_first() =~= v@.skip(a as int + 1));
        }
        a = a + 1;
    }
    proof {
        assert(spec_trim_front(v@) == v@.skip(a as int));
    }
    let mut b: usize = n;
    proof {
        assert(v@.skip(a as int).take(n - a as int) =~= v@.skip(a as int));
    }
    while b > a && is_blank(v[b - 1])
        invariant
            a <= b <= n == v@.len(),
            spec_trim_back(v@.skip(a as int)) == spec_trim_back(
                v@.skip(a as int).take(b - a as int),
            ),
        decreases b,
    {
        proof {
            let t = v@.skip(a as int);
            assert(t.take(b - a as int).last() == v@[b - 1]);
            assert(t.take(b - a as int).drop_last() =~= t.take(b - 1 - a as int));
        }
        b = b - 1;
    }
    proof {
        let t = v@.skip(a as int);
        if b > a {
            assert(!spec_is_blank(t.take(b - a as int).last()));
        }
        assert(spec_trim_back(t) == t.take(b - a as int));
        assert(t.take(b - a as int) =~= v@.subrange(a as int, b as int));
    }
    subvec(v, a, b)
}

/// The cells of one table row: the line split at every tab, each cell
/// trimmed.
pub open spec fn spec_row_of_line(s: Seq<char>) -> Seq<Seq<char>>
    decreases s.len(),
    via spec_row_of_line_decreases
{
    match spec_find_char(s, '\t') {
        None => seq![spec_trim(s)],
        Some(i) => seq![spec_trim(s.take(i))] + spec_row_of_line(s.skip(i + 1)),
    }
}

#[via_fn]
proof fn spec_row_of_line_decreases(s: Seq<char>) {
    if spec_find_char(s, '\t') is Some {
        lemma_find_char_some(s, '\t');
    }
}

/// The lines of the raw table text, split at every newline; text
/// ending in a newline yields no final empty line.
pub open spec fn spec_split_lines(s: Seq<char>) -> Seq<Seq<char>>
    decreases s.len(),
    via spec_split_lines_decreases
{
    if s.len() == 0 {
        Seq::<Seq<char>>::empty()
    } else {
        match spec_find_char(s, '\n') {
            None => seq![s],
            Some(i) => seq![s.take(i)] + spec_split_lines(s.skip(i + 1)),
        }
    }
}

#[via_fn]
proof fn spec_split_lines_decreases(s: Seq<char>) {
    if s.len() > 0 && spec_find_char(s, '\n') is Some {
        lemma_find_char_some(s, '\n');
    }
}

/// A line the table reader ignores: empty, or a bare carriage return
/// left by a Windows line ending.
pub open spec fn spec_is_blank_line(line: Seq<char>) -> bool {
    line.len() == 0 || (line.len() == 1 && line[0] == '\r')
}

/// The rows of the table: every non-blank line, split into trimmed
/// cells.
pub open spec fn spec_rows_of_lines(lines: Seq<Seq<char>>) -> Seq<Seq<Seq<char>>>
    decreases lines.len(),
{
    if lines.len() == 0 {
        Seq::<Seq<Seq<char>>>::empty()
    } else {
        let rest = spec_rows_of_lines(lines.drop_first());
        if spec_is_blank_line(lines[0]) {
            rest
        } else {
            seq![spec_row_of_line(lines[0])] + rest
        }
    }
}

/// The fully tokenized table: trimmed cells of every non-blank line.
pub open spec fn spec_table(s: Seq<char>) -> Seq<Seq<Seq<char>>> {
    spec_rows_of_lines(spec_split_lines(s))
}

/// The view of a vector of cells.
pub open spec fn cells_view(r: Seq<Vec<char>>) -> Seq<Seq<char>> {
    r.map_values(|c: Vec<char>| c@)
}

/// The view of a vector of rows.
pub open spec fn rows_view(t: Seq<Vec<Vec<char>>>) -> Seq<Seq<Seq<char>>> {
    t.map_values(|r: Vec<Vec<char>>| cells_view(r@))
}

/// First index at or after `from` holding `c`, or the length if none.
pub fn find_char_from(v: &Vec<char>, c: char, from: usize) -> (j: usize)
    requires
        from <= v@.len(),
    ensures
        from <= j <= v@.len(),
        j < v@.len() ==> v@[j as int] == c,
        forall|k: int| from <= k < j ==> v@[k] != c,
{
    let mut j: usize = from;
    while j < v.len()
        invariant
            from <= j <= v@.len(),
            forall|k: int| from <= k < j ==> v@[k] != c,
        decreases v@.len() - j,
    {
        if v[j] == c {
            return j;
        }
        j = j + 1;
    }
    j
}

/// `spec_find_char` on the suffix of `s` from `from`, given a scan
/// that stopped at `j`.
pub proof fn lemma_find_in_suffix(s: Seq<char>, c: char, from: int, j: int)
    requires
        0 <= from <= j <= s.len(),
        j < s.len() ==> s[j] == c,
        forall|k: int| from <= k < j ==> s[k] != c,
    ensures
        spec_find_char(s.skip(from), c) == (if j < s.len() {
            Some(j - from)
        } else {
            None
        }),
{
    lemma_find_char_at(s.skip(from), c, j - from);
}

/// Split one line into trimmed cells.
#[verifier::loop_isolation(false)]
fn row_of_line(line: &Vec<char>) -> (r: Vec<Vec<char>>)
    ensures
        cells_view(r@) == spec_row_of_line(line@),
{
    let mut acc: Vec<Vec<char>> = Vec::new();
    let mut q: usize = 0;
    let mut done = false;
    proof {
        assert(line@.skip(0) =~= line@);
        assert(cells_view(acc@) + spec_row_of_line(line@) =~= spec_row_of_line(line@));
    }
    while !done
        invariant
            q <= line@.len(),
            spec_row_of_line(line@) == (if done {
                cells_view(acc@)
            } else {
                cells_view(acc@) + spec_row_of_line(line@.skip(q as int))
            }),
        decreases line@.len() - q + (if done { 0int } else { 1int }),
    {
        let j = find_char_from(line, '\t', q);
        let raw = subvec(line, q, j);
        let cell = trim_chars(&raw);
        proof {
            lemma_find_in_suffix(line@, '\t', q as int, j as int);
            let t = line@.skip(q as int);
            if j < line@.len() {
                assert(t.take(j - q as int) =~= line@.subrange(q as int, j as int));
                assert(t.skip(j - q as int + 1) =~= line@.skip(j as int + 1));
            } else {
                assert(t =~= line@.subrange(q as int, line@.len() as int));
            }
        }
        acc.push(cell);
        proof {
            let t = line@.skip(q as int);
            match spec_find_char(t, '\t') {
                None => {
                    assert(cells_view(acc@) =~= cells_view(acc@.drop_last()) + seq![
                        spec_trim(t),
                    ]);
                },
                Some(i) => {
                    assert(cells_view(acc@) =~= cells_view(acc@.drop_last()) + seq![
                        spec_trim(t.take(i)),
                    ]);
                    assert(cells_view(acc@.drop_last()) + spec_row_of_line(t) =~= cells_view(
                        acc@,
                    ) + spec_row_of_line(t.skip(i + 1)));
                },
            }
        }
        if j < line.len() {
            q = j + 1;
        } else {
            done = true;
        }
    }
    acc
}

/// Tokenize a raw table: the trimmed cells of every non-blank line.
#[verifier::loop_isolation(false)]
pub fn tokenize(table: &str) -> (r: Vec<Vec<Vec<char>>>)
    ensures
        rows_view(r@) == spec_table(table@),
{
    let chars = str_to_chars(table);
    let mut acc: Vec<Vec<Vec<char>>> = Vec::new();
    let mut p: usize = 0;
    proof {
        assert(chars@.skip(0) =~= chars@);
        assert(rows_view(acc@) + spec_table(table@) =~= spec_table(table@));
    }
    while p < chars.len()
        invariant
            p <= chars@.len(),
            chars@ == table@,
            spec_table(table@) == rows_view(acc@) + spec_rows_of_lines(
                spec_split_lines(chars@.skip(p as int)),
            ),
        decreases chars@.len() - p,
    {
        let j = find_char_from(&chars, '\n', p);
        let line = subvec(&chars, p, j);
        proof {
            lemma_find_in_suffix(chars@, '\n', p as int, j as int);
            let t = chars@.skip(p as int);
            if j < chars@.len() {
                assert(t.take(j - p as int) =~= line@);
                assert(t.skip(j - p as int + 1) =~= chars@.skip(j as int + 1));
                assert(spec_split_lines(t) == seq![line@] + spec_split_lines(
                    chars@.skip(j as int + 1),
                ));
                assert((seq![line@] + spec_split_lines(chars@.skip(j as int + 1))).drop_first()
                    =~= spec_split_lines(chars@.skip(j as int + 1)));
            } else {
                assert(t =~= line@);
                assert(spec_split_lines(t) == seq![line@]);
                assert((seq![line@]).drop_first() =~= Seq::<Seq<char>>::empty());
            }
        }
        let blank = line.len() == 0 || (line.len() == 1 && line[0] == '\r');
        if !blank {
            let row = row_of_line(&line);
            acc.push(row);
            proof {
                assert(rows_view(acc@) =~= rows_view(acc@.drop_last()) + seq![
                    cells_view(acc@.last()@),
                ]);
            }
        }
        if j < chars.len() {
            p = j + 1;
        } else {
            p = chars.len();
        }
    }
    proof {
        assert(chars@.skip(chars@.len() as int) =~= Seq::<char>::empty());
        assert(rows_view(acc@) + spec_rows_of_lines(spec_split_lines(Seq::<char>::empty()))
            =~= rows_view(acc@));
    }
    acc
}

} // verus!
