//! The primary repository's local exclude list, modelled as a sequence of
//! bytes. `init` must make sure the secondary directory's name stands in that
//! list exactly once, however often `init` is run: the update appends the name
//! as a line of its own only when no existing line, once trimmed of
//! surrounding whitespace, already equals it.
//!
//! The model splits the contents on line feeds, trims each line the way the
//! tool compares lines, and counts the lines equal to an entry. The exec
//! functions work on `Vec<u8>`; the binary reads and writes the file itself.

use vstd::prelude::*;

verus! {

/// The line-feed byte that separates lines.
pub open spec fn line_feed() -> u8 {
    10
}

/// Whitespace that is ignored when a line is compared against an entry:
/// horizontal tab, line feed, vertical tab, form feed, carriage return and
/// space — the ASCII characters Rust's `str::trim` removes.
pub open spec fn is_trim_ws(b: u8) -> bool {
    b == 9 || b == 10 || b == 11 || b == 12 || b == 13 || b == 32
}

/// `s` without its leading whitespace.
pub open spec fn trim_start_spec(s: Seq<u8>) -> Seq<u8>
    decreases s.len(),
{
    if s.len() > 0 && is_trim_ws(s.first()) {
        trim_start_spec(s.drop_first())
    } else {
        s
    }
}

/// `s` without its trailing whitespace.
pub open spec fn trim_end_spec(s: Seq<u8>) -> Seq<u8>
    decreases s.len(),
{
    if s.len() > 0 && is_trim_ws(s.last()) {
        trim_end_spec(s.drop_last())
    } else {
        s
    }
}

/// `s` without leading and trailing whitespace.
pub open spec fn trim_spec(s: Seq<u8>) -> Seq<u8> {
    trim_end_spec(trim_start_spec(s))
}

/// The lines of `s`: the (possibly empty) stretches between line feeds.
/// Splitting is on the separator alone, so a text of `n` line feeds has
/// `n + 1` lines and the empty text has one empty line.
pub open spec fn lines_spec(s: Seq<u8>) -> Seq<Seq<u8>>
    decreases s.len(),
{
    if s.len() == 0 {
        seq![Seq::<u8>::empty()]
    } else if s.first() == line_feed() {
        seq![Seq::<u8>::empty()] + lines_spec(s.drop_first())
    } else {
        let rest = lines_spec(s.drop_first());
        seq![seq![s.first()] + rest.first()] + rest.drop_first()
    }
}

/// How many of the given lines equal `entry` once trimmed.
pub open spec fn count_matching(lines: Seq<Seq<u8>>, entry: Seq<u8>) -> nat
    decreases lines.len(),
{
    if lines.len() == 0 {
        0
    } else {
        (if trim_spec(lines.first()) == entry {
            1nat
        } else {
            0nat
        }) + count_matching(lines.drop_first(), entry)
    }
}

/// How many lines of the text `s` equal `entry` once trimmed.
pub open spec fn entry_count(s: Seq<u8>, entry: Seq<u8>) -> nat {
    count_matching(lines_spec(s), entry)
}

/// Whether some line of `s`, trimmed, equals `entry`.
pub open spec fn contains_entry(s: Seq<u8>, entry: Seq<u8>) -> bool {
    entry_count(s, entry) > 0
}

/// An entry that can stand as a line of its own: non-empty, free of line
/// feeds, and already trimmed, so that the line written for it reads back as
/// the same entry.
pub open spec fn well_formed_entry(e: Seq<u8>) -> bool {
    &&& e.len() > 0
    &&& forall|k: int| 0 <= k < e.len() ==> e[k] != line_feed()
    &&& trim_spec(e) == e
}

/// `s` with a line feed supplied at its end if it lacks one, so that appended
/// text starts a line of its own.
pub open spec fn terminated(s: Seq<u8>) -> Seq<u8> {
    if s.len() == 0 || s.last() == line_feed() {
        s
    } else {
        s + seq![line_feed()]
    }
}

/// The exclude list after the idempotent update: unchanged when some line
/// already equals `e`, and otherwise extended with `e` as a line of its own.
pub open spec fn updated_spec(s: Seq<u8>, e: Seq<u8>) -> Seq<u8> {
    if contains_entry(s, e) {
        s
    } else {
        terminated(s) + e + seq![line_feed()]
    }
}

/// The secondary metadata directory's name, `.gits`, as bytes: the entry the
/// exclude list must carry.
pub open spec fn secondary_name_spec() -> Seq<u8> {
    seq![46u8, 103u8, 105u8, 116u8, 115u8]
}

/// The secondary directory's name is a well-formed exclude entry.
pub proof fn lemma_secondary_name_well_formed()
    ensures
        well_formed_entry(secondary_name_spec()),
{
    let e = secondary_name_spec();
    assert(trim_start_spec(e) == e);
    assert(trim_end_spec(e) == e);
}

/// Every text has at least one line.
proof fn lemma_lines_nonempty(s: Seq<u8>)
    ensures
        lines_spec(s).len() >= 1,
    decreases s.len(),
{
    if s.len() > 0 {
        lemma_lines_nonempty(s.drop_first());
    }
}

/// A prefix free of line feeds and closed off by a line feed (or by the end
/// of the text) is the first line, and the rest of the text splits on its
/// own.
proof fn lemma_first_line(s: Seq<u8>, j: int)
    requires
        0 <= j <= s.len(),
        forall|k: int| 0 <= k < j ==> s[k] != line_feed(),
        j == s.len() || s[j] == line_feed(),
    ensures
        j == s.len() ==> lines_spec(s) == seq![s],
        j < s.len() ==> lines_spec(s) == seq![s.take(j)] + lines_spec(s.skip(j + 1)),
    decreases j,
{
    if j == 0 {
        if s.len() == 0 {
            assert(s =~= Seq::<u8>::empty());
            assert(lines_spec(s) =~~= seq![s]);
        } else {
            assert(s.first() == line_feed());
            assert(s.take(0) =~= Seq::<u8>::empty());
            assert(s.skip(1) =~= s.drop_first());
            assert(lines_spec(s) =~= seq![s.take(0)] + lines_spec(s.skip(1)));
        }
    } else {
        let t = s.drop_first();
        assert(s.first() != line_feed());
        assert(forall|k: int| 0 <= k < j - 1 ==> t[k] != line_feed());
        lemma_first_line(t, j - 1);
        let rest = lines_spec(t);
        if j == s.len() {
            assert(rest == seq![t]);
            assert(seq![s.first()] + rest.first() =~= s);
            assert(rest.drop_first() =~= Seq::<Seq<u8>>::empty());
            assert(lines_spec(s) == seq![seq![s.first()] + rest.first()] + rest.drop_first());
            assert(lines_spec(s) =~~= seq![s]);
        } else {
            assert(rest == seq![t.take(j - 1)] + lines_spec(t.skip(j)));
            lemma_lines_nonempty(t.skip(j));
            assert(rest.first() == t.take(j - 1));
            assert(rest.drop_first() =~= lines_spec(t.skip(j)));
            assert(seq![s.first()] + t.take(j - 1) =~= s.take(j));
            assert(t.skip(j) =~= s.skip(j + 1));
            assert(lines_spec(s) =~= seq![s.take(j)] + lines_spec(s.skip(j + 1)));
        }
    }
}

/// Appending one more line to a list of lines adds its match, if any, to the
/// count.
proof fn lemma_count_push(lines: Seq<Seq<u8>>, x: Seq<u8>, e: Seq<u8>)
    ensures
        count_matching(lines.push(x), e) == count_matching(lines, e) + (if trim_spec(x) == e {
            1nat
        } else {
            0nat
        }),
    decreases lines.len(),
{
    if lines.len() == 0 {
        assert(lines.push(x).drop_first() =~= lines);
        assert(lines.push(x).first() == x);
    } else {
        assert(lines.push(x).first() == lines.first());
        assert(lines.push(x).drop_first() =~= lines.drop_first().push(x));
        lemma_count_push(lines.drop_first(), x, e);
    }
}

/// Counting matches distributes over concatenation of line lists.
proof fn lemma_count_concat(a: Seq<Seq<u8>>, b: Seq<Seq<u8>>, e: Seq<u8>)
    ensures
        count_matching(a + b, e) == count_matching(a, e) + count_matching(b, e),
    decreases a.len(),
{
    if a.len() == 0 {
        assert(a + b =~= b);
    } else {
        assert((a + b).first() == a.first());
        assert((a + b).drop_first() =~= a.drop_first() + b);
        lemma_count_concat(a.drop_first(), b, e);
    }
}

/// A text that ends in a line feed closes its last proper line, so its split
/// ends with an extra empty line.
proof fn lemma_lines_ends_lf(s: Seq<u8>)
    requires
        s.len() > 0,
        s.last() == line_feed(),
    ensures
        lines_spec(s).len() >= 2,
        lines_spec(s).last() == Seq::<u8>::empty(),
    decreases s.len(),
{
    if s.len() == 1 {
        reveal_with_fuel(lines_spec, 2);
        assert(s.first() == line_feed());
        assert(s.drop_first() =~= Seq::<u8>::empty());
        assert(lines_spec(Seq::<u8>::empty()) == seq![Seq::<u8>::empty()]);
        assert(lines_spec(s) =~~= seq![Seq::<u8>::empty(), Seq::<u8>::empty()]);
    } else {
        let t = s.drop_first();
        assert(t.last() == s.last());
        lemma_lines_ends_lf(t);
        if s.first() == line_feed() {
            assert(lines_spec(s).last() == lines_spec(t).last());
        } else {
            let rest = lines_spec(t);
            assert(lines_spec(s).last() == rest.drop_first().last());
            assert(rest.drop_first().last() == rest.last());
        }
    }
}

/// Splitting distributes over concatenation when the first part ends in a
/// line feed: the line feed seals the first part's lines, whose final empty
/// line is replaced by the lines of the second part.
proof fn lemma_lines_concat(t: Seq<u8>, r: Seq<u8>)
    requires
        t.len() > 0,
        t.last() == line_feed(),
    ensures
        lines_spec(t + r) == lines_spec(t).drop_last() + lines_spec(r),
    decreases t.len(),
{
    if t.len() == 1 {
        reveal_with_fuel(lines_spec, 2);
        assert((t + r).first() == line_feed());
        assert((t + r).drop_first() =~= r);
        assert(t.drop_first() =~= Seq::<u8>::empty());
        assert(lines_spec(Seq::<u8>::empty()) == seq![Seq::<u8>::empty()]);
        assert(lines_spec(t) =~~= seq![Seq::<u8>::empty(), Seq::<u8>::empty()]);
        assert(lines_spec(t).drop_last() =~~= seq![Seq::<u8>::empty()]);
        assert(lines_spec(t + r) =~~= seq![Seq::<u8>::empty()] + lines_spec(r));
        assert(lines_spec(t + r) =~~= lines_spec(t).drop_last() + lines_spec(r));
    } else {
        let t2 = t.drop_first();
        assert(t2.last() == t.last());
        lemma_lines_concat(t2, r);
        lemma_lines_ends_lf(t2);
        lemma_lines_ends_lf(t);
        assert((t + r).len() > 0);
        assert((t + r).first() == t.first());
        assert((t + r).drop_first() =~= t2 + r);
        if t.first() == line_feed() {
            assert(lines_spec(t + r) =~= seq![Seq::<u8>::empty()] + (lines_spec(t2).drop_last()
                + lines_spec(r)));
            assert(lines_spec(t).drop_last() =~= seq![Seq::<u8>::empty()] + lines_spec(
                t2,
            ).drop_last());
            assert(lines_spec(t + r) =~= lines_spec(t).drop_last() + lines_spec(r));
        } else {
            let rest = lines_spec(t2);
            let combined = lines_spec(t2 + r);
            assert(combined == rest.drop_last() + lines_spec(r));
            lemma_lines_nonempty(r);
            assert(rest.drop_last().len() >= 1);
            assert(combined.first() == rest.drop_last().first());
            assert(rest.drop_last().first() == rest.first());
            assert(combined.drop_first() =~= rest.drop_last().drop_first() + lines_spec(r));
            assert(rest.drop_last().drop_first() =~= rest.drop_first().drop_last());
            assert(lines_spec(t + r) =~= seq![seq![t.first()] + rest.first()]
                + rest.drop_first().drop_last() + lines_spec(r));
            assert(lines_spec(t).drop_last() =~= seq![seq![t.first()] + rest.first()]
                + rest.drop_first().drop_last());
            assert(lines_spec(t + r) =~= lines_spec(t).drop_last() + lines_spec(r));
        }
    }
}

/// A final line feed only adds an empty last line.
proof fn lemma_lines_trailing_lf(s: Seq<u8>)
    ensures
        lines_spec(s + seq![line_feed()]) == lines_spec(s) + seq![Seq::<u8>::empty()],
    decreases s.len(),
{
    if s.len() == 0 {
        reveal_with_fuel(lines_spec, 2);
        assert(s + seq![line_feed()] =~= seq![line_feed()]);
        assert((s + seq![line_feed()]).drop_first() =~= Seq::<u8>::empty());
        assert(lines_spec(Seq::<u8>::empty()) == seq![Seq::<u8>::empty()]);
        assert(lines_spec(s + seq![line_feed()]) =~~= lines_spec(s) + seq![Seq::<u8>::empty()]);
    } else {
        let t = s.drop_first();
        lemma_lines_trailing_lf(t);
        assert((s + seq![line_feed()]).first() == s.first());
        assert((s + seq![line_feed()]).drop_first() =~= t + seq![line_feed()]);
        lemma_lines_nonempty(t);
        if s.first() == line_feed() {
            assert(lines_spec(s + seq![line_feed()]) =~= seq![Seq::<u8>::empty()] + (lines_spec(t)
                + seq![Seq::<u8>::empty()]));
            assert(lines_spec(s + seq![line_feed()]) =~= lines_spec(s) + seq![Seq::<u8>::empty()]);
        } else {
            let rest = lines_spec(t);
            let extended = lines_spec(t + seq![line_feed()]);
            assert(extended == rest + seq![Seq::<u8>::empty()]);
            assert(extended.first() == rest.first());
            assert(extended.drop_first() =~= rest.drop_first() + seq![Seq::<u8>::empty()]);
            assert(lines_spec(s + seq![line_feed()]) =~= seq![seq![s.first()] + rest.first()]
                + rest.drop_first() + seq![Seq::<u8>::empty()]);
            assert(lines_spec(s) + seq![Seq::<u8>::empty()] =~= seq![seq![s.first()]
                + rest.first()] + rest.drop_first() + seq![Seq::<u8>::empty()]);
        }
    }
}

/// The text written for a well-formed entry splits into that entry's line
/// followed by one empty line, and counts as exactly one match.
proof fn lemma_entry_line_count(e: Seq<u8>)
    requires
        well_formed_entry(e),
    ensures
        entry_count(e + seq![line_feed()], e) == 1,
{
    let w = e + seq![line_feed()];
    lemma_first_line(w, e.len() as int);
    assert(w.take(e.len() as int) =~= e);
    assert(w.skip(e.len() as int + 1) =~= Seq::<u8>::empty());
    assert(lines_spec(w) == seq![e] + lines_spec(Seq::<u8>::empty()));
    let ls = seq![e] + seq![Seq::<u8>::empty()];
    assert(lines_spec(w) =~= ls);
    assert(ls.first() == e);
    assert(ls.drop_first() =~= seq![Seq::<u8>::empty()]);
    assert(seq![Seq::<u8>::empty()].drop_first() =~= Seq::<Seq<u8>>::empty());
    assert(trim_spec(Seq::<u8>::empty()) == Seq::<u8>::empty());
    assert(trim_spec(Seq::<u8>::empty()) != e);
    assert(count_matching(Seq::<Seq<u8>>::empty(), e) == 0);
    assert(count_matching(seq![Seq::<u8>::empty()], e) == 0);
    assert(count_matching(ls, e) == 1);
}

/// Supplying the final line feed does not change any line above it.
proof fn lemma_terminated_count(s: Seq<u8>, e: Seq<u8>)
    requires
        e.len() > 0,
    ensures
        entry_count(terminated(s), e) == entry_count(s, e),
        terminated(s).len() == 0 || terminated(s).last() == line_feed(),
{
    if s.len() == 0 || s.last() == line_feed() {
    } else {
        lemma_lines_trailing_lf(s);
        lemma_lines_nonempty(s);
        assert(lines_spec(s) + seq![Seq::<u8>::empty()] =~= lines_spec(s).push(
            Seq::<u8>::empty(),
        ));
        lemma_count_push(lines_spec(s), Seq::<u8>::empty(), e);
        assert(trim_spec(Seq::<u8>::empty()) == Seq::<u8>::empty());
    }
}

/// The one law of the exclude-list update: when some line already equals the
/// entry the text is left alone, and otherwise exactly one matching line is
/// added. In particular a list that lacked the entry holds it exactly once
/// afterwards, so repeated updates never duplicate it.
pub proof fn lemma_update_count(s: Seq<u8>, e: Seq<u8>)
    requires
        well_formed_entry(e),
    ensures
        contains_entry(s, e) ==> updated_spec(s, e) == s,
        !contains_entry(s, e) ==> entry_count(updated_spec(s, e), e) == entry_count(s, e) + 1,
        !contains_entry(s, e) ==> entry_count(updated_spec(s, e), e) == 1,
        contains_entry(updated_spec(s, e), e),
{
    if !contains_entry(s, e) {
        let t = terminated(s);
        let u = updated_spec(s, e);
        lemma_terminated_count(s, e);
        lemma_entry_line_count(e);
        if s.len() == 0 {
            assert(t =~= Seq::<u8>::empty());
            assert(u =~= e + seq![line_feed()]);
            assert(entry_count(u, e) == 1);
        } else {
            assert(t.len() > 0 && t.last() == line_feed());
            lemma_lines_concat(t, e + seq![line_feed()]);
            assert(u =~= t + (e + seq![line_feed()]));
            lemma_count_concat(lines_spec(t).drop_last(), lines_spec(e + seq![line_feed()]), e);
            lemma_lines_ends_lf(t);
            let lt = lines_spec(t);
            assert(lt =~= lt.drop_last().push(lt.last()));
            lemma_count_push(lt.drop_last(), lt.last(), e);
            assert(trim_spec(Seq::<u8>::empty()) == Seq::<u8>::empty());
            assert(count_matching(lt.drop_last(), e) == count_matching(lt, e));
            assert(entry_count(u, e) == entry_count(t, e) + 1);
        }
    }
}

/// Running the update twice is the same as running it once.
pub proof fn lemma_update_idempotent(s: Seq<u8>, e: Seq<u8>)
    requires
        well_formed_entry(e),
    ensures
        updated_spec(updated_spec(s, e), e) == updated_spec(s, e),
{
    lemma_update_count(s, e);
}

/// The match count of a single line.
proof fn lemma_count_single(x: Seq<u8>, e: Seq<u8>)
    ensures
        count_matching(seq![x], e) == (if trim_spec(x) == e {
            1nat
        } else {
            0nat
        }),
{
    reveal_with_fuel(count_matching, 2);
    assert(seq![x].drop_first() =~= Seq::<Seq<u8>>::empty());
    assert(count_matching(Seq::<Seq<u8>>::empty(), e) == 0);
}

/// Whether `b` is whitespace that line comparison ignores.
fn is_ws_byte(b: u8) -> (r: bool)
    ensures
        r == is_trim_ws(b),
{
    b == 9 || b == 10 || b == 11 || b == 12 || b == 13 || b == 32
}

/// The bounds of `content[start..end]` with surrounding whitespace left out:
/// the returned pair brackets exactly the trimmed line.
fn trimmed_bounds(content: &Vec<u8>, start: usize, end: usize) -> (r: (usize, usize))
    requires
        start <= end,
        end <= content@.len(),
    ensures
        ({
            let (lo, hi) = r;
            &&& start <= lo
            &&& lo <= hi
            &&& hi <= end
            &&& content@.subrange(lo as int, hi as int) == trim_spec(
                content@.subrange(start as int, end as int),
            )
        }),
{
    let mut lo: usize = start;
    while lo < end && is_ws_byte(content[lo])
        invariant
            start <= lo <= end <= content@.len(),
            trim_start_spec(content@.subrange(start as int, end as int)) == trim_start_spec(
                content@.subrange(lo as int, end as int),
            ),
        decreases end - lo,
    {
        proof {
            let cur = content@.subrange(lo as int, end as int);
            assert(cur.len() > 0 && is_trim_ws(cur.first()));
            assert(cur.drop_first() =~= content@.subrange(lo as int + 1, end as int));
        }
        lo = lo + 1;
    }
    proof {
        let cur = content@.subrange(lo as int, end as int);
        assert(trim_start_spec(cur) == cur);
    }
    let mut hi: usize = end;
    while lo < hi && is_ws_byte(content[hi - 1])
        invariant
            start <= lo <= hi <= end <= content@.len(),
            trim_start_spec(content@.subrange(start as int, end as int)) == content@.subrange(
                lo as int,
                end as int,
            ),
            trim_end_spec(content@.subrange(lo as int, end as int)) == trim_end_spec(
                content@.subrange(lo as int, hi as int),
            ),
        decreases hi - lo,
    {
        proof {
            let cur = content@.subrange(lo as int, hi as int);
            assert(cur.len() > 0 && is_trim_ws(cur.last()));
            assert(cur.drop_last() =~= content@.subrange(lo as int, hi as int - 1));
        }
        hi = hi - 1;
    }
    proof {
        let cur = content@.subrange(lo as int, hi as int);
        assert(trim_end_spec(cur) == cur);
    }
    (lo, hi)
}

/// Whether `content[lo..hi]` spells out exactly the bytes of `entry`.
fn range_matches(content: &Vec<u8>, lo: usize, hi: usize, entry: &Vec<u8>) -> (r: bool)
    requires
        lo <= hi,
        hi <= content@.len(),
    ensures
        r == (content@.subrange(lo as int, hi as int) == entry@),
{
    if hi - lo != entry.len() {
        proof {
            assert(content@.subrange(lo as int, hi as int).len() != entry@.len());
        }
        return false;
    }
    let mut k: usize = 0;
    while k < entry.len()
        invariant
            hi - lo == entry@.len(),
            lo <= hi <= content@.len(),
            k <= entry@.len(),
            forall|i: int| 0 <= i < k ==> content@[lo + i] == entry@[i],
        decreases entry@.len() - k,
    {
        if content[lo + k] != entry[k] {
            proof {
                assert(content@.subrange(lo as int, hi as int)[k as int] != entry@[k as int]);
            }
            return false;
        }
        k = k + 1;
    }
    proof {
        assert(content@.subrange(lo as int, hi as int) =~= entry@);
    }
    true
}

/// Whether some line of `content`, trimmed of surrounding whitespace, equals
/// `entry`. This is the check `init` makes before touching the exclude list.
pub fn has_entry(content: &Vec<u8>, entry: &Vec<u8>) -> (r: bool)
    ensures
        r == contains_entry(content@, entry@),
{
    let n = content.len();
    let mut start: usize = 0;
    proof {
        assert(content@.skip(0) =~= content@);
    }
    while start <= n
        invariant
            n == content@.len(),
            start <= n,
            entry_count(content@, entry@) == count_matching(
                lines_spec(content@.skip(start as int)),
                entry@,
            ),
        decreases n - start,
    {
        let mut j: usize = start;
        while j < n && content[j] != 10u8
            invariant
                start <= j <= n,
                n == content@.len(),
                forall|k: int| start <= k < j ==> content@[k] != line_feed(),
            decreases n - j,
        {
            j = j + 1;
        }
        let ghost suf = content@.skip(start as int);
        proof {
            assert(forall|k: int| 0 <= k < j - start ==> suf[k] != line_feed());
            if j < n {
                assert(suf[j - start] == line_feed());
            }
            lemma_first_line(suf, j - start);
            assert(suf.take(j - start) =~= content@.subrange(start as int, j as int));
        }
        let (lo, hi) = trimmed_bounds(content, start, j);
        let found = range_matches(content, lo, hi, entry);
        if j == n {
            proof {
                assert(lines_spec(suf) == seq![suf]);
                assert(suf =~= content@.subrange(start as int, j as int));
                lemma_count_single(suf, entry@);
            }
            return found;
        }
        proof {
            assert(lines_spec(suf) == seq![suf.take(j - start)] + lines_spec(
                suf.skip(j - start + 1),
            ));
            lemma_count_concat(
                seq![suf.take(j - start)],
                lines_spec(suf.skip(j - start + 1)),
                entry@,
            );
            lemma_count_single(suf.take(j - start), entry@);
            assert(suf.skip(j - start + 1) =~= content@.skip(j as int + 1));
        }
        if found {
            return true;
        }
        start = j + 1;
    }
    // The pass that reaches the end of the text returns inside the loop, so
    // control never falls out of it.
    proof {
        assert(false);
    }
    false
}

/// The bytes of the secondary metadata directory's name, `.gits`.
pub fn secondary_name() -> (v: Vec<u8>)
    ensures
        v@ == secondary_name_spec(),
{
    let mut v: Vec<u8> = Vec::new();
    v.push(46);
    v.push(103);
    v.push(105);
    v.push(116);
    v.push(115);
    proof {
        assert(v@ =~= secondary_name_spec());
    }
    v
}

/// The bytes that `init` must append to the exclude list so that it holds
/// `entry` as a line: empty when a matching line is already there, otherwise
/// `entry` on a line of its own (opened with a line feed when the current
/// text does not end with one). Appending exactly these bytes turns the text
/// into `updated_spec` of it.
pub fn exclude_append_suffix(content: &Vec<u8>, entry: &Vec<u8>) -> (suffix: Vec<u8>)
    ensures
        content@ + suffix@ == updated_spec(content@, entry@),
{
    let mut suffix: Vec<u8> = Vec::new();
    if has_entry(content, entry) {
        proof {
            assert(content@ + suffix@ =~= content@);
        }
        return suffix;
    }
    if content.len() > 0 && content[content.len() - 1] != 10u8 {
        suffix.push(10);
    }
    proof {
        assert(content@ + suffix@ =~= terminated(content@));
    }
    let ghost opened = suffix@;
    let mut k: usize = 0;
    while k < entry.len()
        invariant
            k <= entry@.len(),
            suffix@ == opened + entry@.take(k as int),
        decreases entry@.len() - k,
    {
        suffix.push(entry[k]);
        proof {
            assert(opened + entry@.take(k as int) + seq![entry@[k as int]] =~= opened
                + entry@.take(k as int + 1));
        }
        k = k + 1;
    }
    suffix.push(10);
    proof {
        assert(entry@.take(entry@.len() as int) =~= entry@);
        assert(content@ + suffix@ =~= terminated(content@) + entry@ + seq![line_feed()]);
    }
    suffix
}

/// The whole exclude list after the idempotent update: the given text with
/// the suffix of `exclude_append_suffix` already appended.
pub fn updated_content(content: &Vec<u8>, entry: &Vec<u8>) -> (out: Vec<u8>)
    ensures
        out@ == updated_spec(content@, entry@),
{
    let mut out: Vec<u8> = Vec::new();
    let mut k: usize = 0;
    while k < content.len()
        invariant
            k <= content@.len(),
            out@ == content@.take(k as int),
        decreases content@.len() - k,
    {
        out.push(content[k]);
        proof {
            assert(content@.take(k as int).push(content@[k as int]) =~= content@.take(
                k as int + 1,
            ));
        }
        k = k + 1;
    }
    proof {
        assert(content@.take(content@.len() as int) =~= content@);
    }
    let mut suffix = exclude_append_suffix(content, entry);
    out.append(&mut suffix);
    out
}

} // verus!
