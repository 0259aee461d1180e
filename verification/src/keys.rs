//! Credential aggregation: turning the contents of zero or more key files
//! into one newline-joined, trailing-newline-terminated authorized-keys
//! payload, with every distinct trimmed non-empty line kept exactly once in
//! first-seen order.

use vstd::prelude::*;

use base64::Engine;

use crate::errors::LaunchError;
use crate::textfmt::{byte_views, concat2};

verus! {

/// ASCII whitespace, the characters trimmed from the ends of a key line.
pub open spec fn is_space(b: u8) -> bool {
    b == 9 || b == 10 || b == 11 || b == 12 || b == 13 || b == 32
}

/// The line without its leading whitespace.
pub open spec fn trim_front(s: Seq<u8>) -> Seq<u8>
    decreases s.len(),
{
    if s.len() > 0 && is_space(s.first()) {
        trim_front(s.drop_first())
    } else {
        s
    }
}

/// The line without its trailing whitespace.
pub open spec fn trim_back(s: Seq<u8>) -> Seq<u8>
    decreases s.len(),
{
    if s.len() > 0 && is_space(s.last()) {
        trim_back(s.drop_last())
    } else {
        s
    }
}

/// The line without whitespace at either end.
pub open spec fn trimmed(s: Seq<u8>) -> Seq<u8> {
    trim_back(trim_front(s))
}

proof fn lemma_trim_front_at(s: Seq<u8>, b: int)
    requires
        0 <= b <= s.len(),
        forall|k: int| 0 <= k < b ==> is_space(s[k]),
        b < s.len() ==> !is_space(s[b]),
    ensures
        trim_front(s) == s.skip(b),
    decreases b,
{
    if b == 0 {
        assert(s.skip(0) =~= s);
    } else {
        assert(is_space(s.first()));
        lemma_trim_front_at(s.drop_first(), b - 1);
        assert(s.drop_first().skip(b - 1) =~= s.skip(b));
    }
}

proof fn lemma_trim_back_at(s: Seq<u8>, e: int)
    requires
        0 <= e <= s.len(),
        forall|k: int| e <= k < s.len() ==> is_space(s[k]),
        e > 0 ==> !is_space(s[e - 1]),
    ensures
        trim_back(s) == s.take(e),
    decreases s.len(),
{
    if s.len() == e {
        assert(s.take(e) =~= s);
    } else {
        assert(is_space(s.last()));
        lemma_trim_back_at(s.drop_last(), e);
        assert(s.drop_last().take(e) =~= s.take(e));
    }
}

/// Copies the line with whitespace stripped from both ends.
pub fn trim_bytes(line: &Vec<u8>) -> (r: Vec<u8>)
    ensures
        r@ == trimmed(line@),
{
    let n = line.len();
    let mut b: usize = 0;
    while b < n && is_space_exec(line[b])
        invariant
            0 <= b <= n,
            n == line@.len(),
            forall|k: int| 0 <= k < b ==> is_space(line@[k]),
        decreases n - b,
    {
        b += 1;
    }
    proof {
        lemma_trim_front_at(line@, b as int);
    }
    let mut e: usize = n;
    if b == n {
        proof {
            assert(trim_back(line@.skip(b as int)) =~= Seq::<u8>::empty());
        }
        return Vec::new();
    }
    while e > b && is_space_exec(line[e - 1])
        invariant
            b <= e <= n,
            n == line@.len(),
            forall|k: int| e <= k < n ==> is_space(line@[k]),
        decreases e,
    {
        e -= 1;
    }
    proof {
        let t = line@.skip(b as int);
        assert(forall|k: int| e - b <= k < t.len() ==> is_space(t[k]));
        lemma_trim_back_at(t, e - b);
    }
    let mut out: Vec<u8> = Vec::new();
    let mut i = b;
    while i < e
        invariant
            b <= i <= e <= n,
            n == line@.len(),
            out@ == line@.subrange(b as int, i as int),
        decreases e - i,
    {
        out.push(line[i]);
        proof {
            assert(line@.subrange(b as int, i + 1) =~= line@.subrange(b as int, i as int).push(
                line@[i as int],
            ));
        }
        i += 1;
    }
    proof {
        assert(line@.skip(b as int).take(e - b) =~= line@.subrange(b as int, e as int));
    }
    out
}

/// Whitespace test on one byte.
fn is_space_exec(b: u8) -> (r: bool)
    ensures
        r == is_space(b),
{
    b == 9 || b == 10 || b == 11 || b == 12 || b == 13 || b == 32
}

/// Splitting on newline bytes, carried out with an explicit accumulator:
/// `cur` is the segment being read, `done` the segments already closed.
pub open spec fn split_acc(s: Seq<u8>, cur: Seq<u8>, done: Seq<Seq<u8>>) -> Seq<Seq<u8>>
    decreases s.len(),
{
    if s.len() == 0 {
        done.push(cur)
    } else if s.first() == 10 {
        split_acc(s.drop_first(), Seq::empty(), done.push(cur))
    } else {
        split_acc(s.drop_first(), cur.push(s.first()), done)
    }
}

/// The segments of `s` between newline bytes, newline excluded; a trailing
/// newline contributes one final empty segment.
pub open spec fn split_lines(s: Seq<u8>) -> Seq<Seq<u8>> {
    split_acc(s, Seq::empty(), Seq::empty())
}

/// Splits the file content into its lines.
pub fn split_lines_exec(content: &Vec<u8>) -> (r: Vec<Vec<u8>>)
    ensures
        byte_views(r@) == split_lines(content@),
{
    let n = content.len();
    let mut done: Vec<Vec<u8>> = Vec::new();
    let mut cur: Vec<u8> = Vec::new();
    let mut i: usize = 0;
    proof {
        assert(content@.skip(0) =~= content@);
        assert(byte_views(done@) =~= Seq::<Seq<u8>>::empty());
        assert(cur@ =~= Seq::<u8>::empty());
    }
    while i < n
        invariant
            0 <= i <= n,
            n == content@.len(),
            split_acc(content@.skip(i as int), cur@, byte_views(done@)) == split_lines(content@),
        decreases n - i,
    {
        let ghost pre_cur = cur@;
        let ghost pre_done = byte_views(done@);
        let ghost srest = content@.skip(i as int);
        proof {
            assert(srest.len() == n - i);
            assert(srest.first() == content@[i as int]);
            assert(srest.drop_first() =~= content@.skip(i + 1));
        }
        let b = content[i];
        if b == 10 {
            done.push(cur);
            cur = Vec::new();
            proof {
                assert(byte_views(done@) =~= pre_done.push(pre_cur));
                assert(cur@ =~= Seq::<u8>::empty());
                assert(split_acc(srest, pre_cur, pre_done) == split_acc(
                    content@.skip(i + 1),
                    Seq::empty(),
                    pre_done.push(pre_cur),
                ));
            }
        } else {
            cur.push(b);
            proof {
                assert(cur@ == pre_cur.push(b));
                assert(split_acc(srest, pre_cur, pre_done) == split_acc(
                    content@.skip(i + 1),
                    pre_cur.push(b),
                    pre_done,
                ));
            }
        }
        i += 1;
    }
    proof {
        assert(content@.skip(n as int) =~= Seq::<u8>::empty());
    }
    done.push(cur);
    proof {
        assert(byte_views(done@) =~= byte_views(done@.drop_last()).push(done@.last()@));
    }
    done
}

/// The trimmed, non-empty lines, in order.
pub open spec fn clean_lines(lines: Seq<Seq<u8>>) -> Seq<Seq<u8>>
    decreases lines.len(),
{
    if lines.len() == 0 {
        Seq::empty()
    } else {
        let rest = clean_lines(lines.drop_last());
        let t = trimmed(lines.last());
        if t.len() == 0 {
            rest
        } else {
            rest.push(t)
        }
    }
}

/// The trimmed, non-empty lines of one file's content.
pub open spec fn file_key_lines(content: Seq<u8>) -> Seq<Seq<u8>> {
    clean_lines(split_lines(content))
}

/// The trimmed, non-empty lines of every file, in file order.
pub open spec fn all_key_lines(files: Seq<Seq<u8>>) -> Seq<Seq<u8>>
    decreases files.len(),
{
    if files.len() == 0 {
        Seq::empty()
    } else {
        all_key_lines(files.drop_last()) + file_key_lines(files.last())
    }
}

/// Keeps each line only the first time it is seen, preserving first-seen
/// order.
pub open spec fn dedup_first(lines: Seq<Seq<u8>>) -> Seq<Seq<u8>>
    decreases lines.len(),
{
    if lines.len() == 0 {
        Seq::empty()
    } else {
        let prev = dedup_first(lines.drop_last());
        if prev.contains(lines.last()) {
            prev
        } else {
            prev.push(lines.last())
        }
    }
}

/// Extends an already-deduplicated accumulator with more lines, keeping each
/// new line only if it is not present yet.
pub open spec fn dedup_extend(acc: Seq<Seq<u8>>, lines: Seq<Seq<u8>>) -> Seq<Seq<u8>>
    decreases lines.len(),
{
    if lines.len() == 0 {
        acc
    } else {
        let prev = dedup_extend(acc, lines.drop_last());
        if prev.contains(lines.last()) {
            prev
        } else {
            prev.push(lines.last())
        }
    }
}

/// Extending by the lines of one more source is the same as deduplicating
/// the concatenation.
pub proof fn lemma_dedup_extend_concat(a: Seq<Seq<u8>>, b: Seq<Seq<u8>>)
    ensures
        dedup_extend(dedup_first(a), b) == dedup_first(a + b),
    decreases b.len(),
{
    if b.len() == 0 {
        assert(a + b =~= a);
    } else {
        lemma_dedup_extend_concat(a, b.drop_last());
        assert((a + b).drop_last() =~= a + b.drop_last());
        assert((a + b).last() == b.last());
    }
}

/// The deduplicated keys of every source file, in first-seen order.
pub open spec fn aggregated_keys(files: Seq<Seq<u8>>) -> Seq<Seq<u8>> {
    dedup_first(all_key_lines(files))
}

/// The keys joined by newlines, with one terminator after every key, so the
/// payload ends with exactly one trailing newline.
pub open spec fn joined_keys(keys: Seq<Seq<u8>>) -> Seq<u8>
    decreases keys.len(),
{
    if keys.len() == 0 {
        Seq::empty()
    } else {
        joined_keys(keys.drop_last()) + keys.last() + seq![10u8]
    }
}

/// A byte sequence with no line terminator in it.
pub open spec fn newline_free(s: Seq<u8>) -> bool {
    forall|k: int| 0 <= k < s.len() ==> s[k] != 10
}

proof fn lemma_contains_split(s: Seq<Seq<u8>>, x: Seq<u8>)
    requires
        s.len() > 0,
    ensures
        s.contains(x) <==> (s.drop_last().contains(x) || s.last() == x),
{
    if s.contains(x) {
        let k = choose|k: int| 0 <= k < s.len() && s[k] == x;
        if k < s.len() - 1 {
            assert(s.drop_last()[k] == x);
        }
    }
    if s.drop_last().contains(x) {
        let k = choose|k: int| 0 <= k < s.drop_last().len() && s.drop_last()[k] == x;
        assert(s[k] == x);
    }
    if s.last() == x {
        assert(s[s.len() - 1] == x);
    }
}

/// After deduplication no line occurs twice: the payload carries each
/// distinct key exactly once.
pub proof fn lemma_dedup_first_no_duplicates(lines: Seq<Seq<u8>>)
    ensures
        forall|i: int, j: int|
            0 <= i < j < dedup_first(lines).len() ==> dedup_first(lines)[i] != dedup_first(
                lines,
            )[j],
    decreases lines.len(),
{
    if lines.len() > 0 {
        lemma_dedup_first_no_duplicates(lines.drop_last());
        let prev = dedup_first(lines.drop_last());
        let d = dedup_first(lines);
        if !prev.contains(lines.last()) {
            assert forall|i: int, j: int| 0 <= i < j < d.len() implies d[i] != d[j] by {
                if j == d.len() - 1 {
                    if d[i] == lines.last() {
                        assert(prev[i] == lines.last());
                        assert(prev.contains(lines.last()));
                    }
                } else {
                    assert(d[i] == prev[i] && d[j] == prev[j]);
                }
            }
        }
    }
}

/// Deduplication keeps exactly the lines that were seen: a line is in the
/// deduplicated sequence if and only if some source line produced it.
pub proof fn lemma_dedup_first_membership(lines: Seq<Seq<u8>>, x: Seq<u8>)
    ensures
        dedup_first(lines).contains(x) <==> lines.contains(x),
    decreases lines.len(),
{
    if lines.len() > 0 {
        lemma_dedup_first_membership(lines.drop_last(), x);
        lemma_contains_split(lines, x);
        let prev = dedup_first(lines.drop_last());
        let d = dedup_first(lines);
        if prev.contains(lines.last()) {
            if lines.last() == x {
                lemma_dedup_first_membership(lines.drop_last(), lines.last());
            }
        } else {
            assert(d.drop_last() =~= prev);
            lemma_contains_split(d, x);
        }
    }
}

/// The position of the first occurrence of `x`, or `-1` when there is none.
pub open spec fn first_occ(s: Seq<Seq<u8>>, x: Seq<u8>) -> int
    decreases s.len(),
{
    if s.len() == 0 {
        -1
    } else if s.first() == x {
        0
    } else {
        let rest = first_occ(s.drop_first(), x);
        if rest == -1 {
            -1
        } else {
            rest + 1
        }
    }
}

proof fn lemma_first_occ_characterization(s: Seq<Seq<u8>>, x: Seq<u8>)
    ensures
        s.contains(x) <==> first_occ(s, x) >= 0,
        first_occ(s, x) >= 0 ==> first_occ(s, x) < s.len() && s[first_occ(s, x)] == x,
        forall|k: int| 0 <= k < first_occ(s, x) ==> s[k] != x,
    decreases s.len(),
{
    if s.len() > 0 && s.first() != x {
        lemma_first_occ_characterization(s.drop_first(), x);
        if s.contains(x) {
            let k = choose|k: int| 0 <= k < s.len() && s[k] == x;
            assert(k > 0);
            assert(s.drop_first()[k - 1] == x);
            assert(s.drop_first().contains(x));
        }
        if s.drop_first().contains(x) {
            let k = choose|k: int|
                0 <= k < s.drop_first().len() && s.drop_first()[k] == x;
            assert(s[k + 1] == x);
        }
        assert(forall|k: int|
            0 <= k < first_occ(s, x) ==> (k == 0 || s.drop_first()[k - 1] == s[k]));
    }
}

proof fn lemma_first_occ_unique(s: Seq<Seq<u8>>, x: Seq<u8>, idx: int)
    requires
        0 <= idx < s.len(),
        s[idx] == x,
        forall|k: int| 0 <= k < idx ==> s[k] != x,
    ensures
        first_occ(s, x) == idx,
{
    lemma_first_occ_characterization(s, x);
    assert(s.contains(x));
    let fo = first_occ(s, x);
    if fo < idx {
        assert(s[fo] != x);
    }
    if fo > idx {
        assert(s[idx] != x);
    }
}

proof fn lemma_first_occ_in_prefix(s: Seq<Seq<u8>>, x: Seq<u8>)
    requires
        s.len() > 0,
        s.drop_last().contains(x),
    ensures
        first_occ(s, x) == first_occ(s.drop_last(), x),
{
    lemma_first_occ_characterization(s.drop_last(), x);
    let fo = first_occ(s.drop_last(), x);
    assert(s[fo] == s.drop_last()[fo]);
    assert(forall|k: int| 0 <= k < fo ==> s[k] == s.drop_last()[k]);
    lemma_first_occ_unique(s, x, fo);
}

/// Deduplication preserves first-seen order: of any two kept lines, the one
/// kept earlier first occurred earlier among the source lines.
pub proof fn lemma_dedup_first_seen_order(lines: Seq<Seq<u8>>)
    ensures
        forall|i: int, j: int|
            0 <= i < j < dedup_first(lines).len() ==> first_occ(lines, dedup_first(lines)[i])
                < first_occ(lines, dedup_first(lines)[j]),
    decreases lines.len(),
{
    if lines.len() > 0 {
        lemma_dedup_first_seen_order(lines.drop_last());
        let prev = dedup_first(lines.drop_last());
        let d = dedup_first(lines);
        let last = lines.last();
        assert forall|m: int| 0 <= m < prev.len() implies lines.drop_last().contains(
            prev[m],
        ) by {
            assert(prev.contains(prev[m]));
            lemma_dedup_first_membership(lines.drop_last(), prev[m]);
        }
        if prev.contains(last) {
            assert(d == prev);
            assert forall|i: int, j: int| 0 <= i < j < d.len() implies first_occ(lines, d[i])
                < first_occ(lines, d[j]) by {
                lemma_first_occ_in_prefix(lines, d[i]);
                lemma_first_occ_in_prefix(lines, d[j]);
            }
        } else {
            assert(d == prev.push(last));
            lemma_dedup_first_membership(lines.drop_last(), last);
            assert(!lines.drop_last().contains(last));
            assert(forall|k: int| 0 <= k < lines.len() - 1 ==> lines.drop_last()[k] == lines[k]);
            assert forall|k: int| 0 <= k < lines.len() - 1 implies lines[k] != last by {
                if lines[k] == last {
                    assert(lines.drop_last()[k] == last);
                    assert(lines.drop_last().contains(last));
                }
            }
            lemma_first_occ_unique(lines, last, lines.len() - 1);
            assert forall|i: int, j: int| 0 <= i < j < d.len() implies first_occ(lines, d[i])
                < first_occ(lines, d[j]) by {
                if j < d.len() - 1 {
                    assert(d[i] == prev[i] && d[j] == prev[j]);
                    lemma_first_occ_in_prefix(lines, d[i]);
                    lemma_first_occ_in_prefix(lines, d[j]);
                } else {
                    assert(d[i] == prev[i] && d[j] == last);
                    lemma_first_occ_in_prefix(lines, d[i]);
                    lemma_first_occ_characterization(lines.drop_last(), d[i]);
                }
            }
        }
    }
}

/// The aggregated keys stand in first-seen order: the key kept earlier first
/// occurred earlier among the trimmed non-empty lines of all sources.
pub proof fn lemma_aggregated_keys_first_seen_order(files: Seq<Seq<u8>>)
    ensures
        forall|i: int, j: int|
            0 <= i < j < aggregated_keys(files).len() ==> first_occ(
                all_key_lines(files),
                aggregated_keys(files)[i],
            ) < first_occ(all_key_lines(files), aggregated_keys(files)[j]),
{
    lemma_dedup_first_seen_order(all_key_lines(files));
}

proof fn lemma_trim_front_newline_free(s: Seq<u8>)
    requires
        newline_free(s),
    ensures
        newline_free(trim_front(s)),
    decreases s.len(),
{
    if s.len() > 0 && is_space(s.first()) {
        assert(newline_free(s.drop_first()));
        lemma_trim_front_newline_free(s.drop_first());
    }
}

proof fn lemma_trim_back_newline_free(s: Seq<u8>)
    requires
        newline_free(s),
    ensures
        newline_free(trim_back(s)),
    decreases s.len(),
{
    if s.len() > 0 && is_space(s.last()) {
        assert(newline_free(s.drop_last()));
        lemma_trim_back_newline_free(s.drop_last());
    }
}

proof fn lemma_split_acc_newline_free(s: Seq<u8>, cur: Seq<u8>, done: Seq<Seq<u8>>)
    requires
        newline_free(cur),
        forall|k: int| 0 <= k < done.len() ==> newline_free(#[trigger] done[k]),
    ensures
        forall|k: int|
            0 <= k < split_acc(s, cur, done).len() ==> newline_free(
                #[trigger] split_acc(s, cur, done)[k],
            ),
    decreases s.len(),
{
    if s.len() == 0 {
        assert(split_acc(s, cur, done) == done.push(cur));
        assert(forall|k: int|
            0 <= k < done.push(cur).len() ==> newline_free(#[trigger] done.push(cur)[k]));
    } else if s.first() == 10 {
        assert(forall|k: int|
            0 <= k < done.push(cur).len() ==> newline_free(#[trigger] done.push(cur)[k]));
        lemma_split_acc_newline_free(s.drop_first(), Seq::empty(), done.push(cur));
        assert(split_acc(s, cur, done) == split_acc(s.drop_first(), Seq::empty(), done.push(cur)));
    } else {
        assert(newline_free(cur.push(s.first())));
        lemma_split_acc_newline_free(s.drop_first(), cur.push(s.first()), done);
        assert(split_acc(s, cur, done) == split_acc(s.drop_first(), cur.push(s.first()), done));
    }
}

proof fn lemma_clean_lines_wellformed(lines: Seq<Seq<u8>>)
    requires
        forall|k: int| 0 <= k < lines.len() ==> newline_free(#[trigger] lines[k]),
    ensures
        forall|k: int|
            0 <= k < clean_lines(lines).len() ==> (#[trigger] clean_lines(lines)[k]).len() > 0
                && newline_free(clean_lines(lines)[k]),
    decreases lines.len(),
{
    if lines.len() > 0 {
        assert(forall|k: int|
            0 <= k < lines.drop_last().len() ==> newline_free(#[trigger] lines.drop_last()[k]));
        lemma_clean_lines_wellformed(lines.drop_last());
        let t = trimmed(lines.last());
        lemma_trim_front_newline_free(lines.last());
        lemma_trim_back_newline_free(trim_front(lines.last()));
        let c = clean_lines(lines);
        let rest = clean_lines(lines.drop_last());
        if t.len() == 0 {
            assert(c == rest);
        } else {
            assert(c == rest.push(t));
            assert forall|k: int|
                0 <= k < c.len() implies (#[trigger] c[k]).len() > 0 && newline_free(c[k]) by {
                if k < rest.len() {
                    assert(c[k] == rest[k]);
                } else {
                    assert(c[k] == t);
                }
            }
        }
    }
}

proof fn lemma_file_key_lines_wellformed(content: Seq<u8>)
    ensures
        forall|k: int|
            0 <= k < file_key_lines(content).len() ==> (#[trigger] file_key_lines(content)[k]).len()
                > 0 && newline_free(file_key_lines(content)[k]),
{
    lemma_split_acc_newline_free(content, Seq::empty(), Seq::empty());
    lemma_clean_lines_wellformed(split_lines(content));
}

proof fn lemma_all_key_lines_wellformed(files: Seq<Seq<u8>>)
    ensures
        forall|k: int|
            0 <= k < all_key_lines(files).len() ==> (#[trigger] all_key_lines(files)[k]).len() > 0
                && newline_free(all_key_lines(files)[k]),
    decreases files.len(),
{
    if files.len() > 0 {
        lemma_all_key_lines_wellformed(files.drop_last());
        lemma_file_key_lines_wellformed(files.last());
        let a = all_key_lines(files.drop_last());
        let b = file_key_lines(files.last());
        assert(forall|k: int| 0 <= k < a.len() ==> (a + b)[k] == a[k]);
        assert(forall|k: int| a.len() <= k < a.len() + b.len() ==> (a + b)[k] == b[k - a.len()]);
    }
}

/// The aggregated keys hold each distinct trimmed non-empty line of the
/// sources exactly once: a line appears among them if and only if some source
/// line produced it, and no line appears twice. First-seen order is what
/// `dedup_first` constructs.
pub proof fn lemma_aggregated_keys_exactly_once(files: Seq<Seq<u8>>, x: Seq<u8>)
    ensures
        aggregated_keys(files).contains(x) <==> all_key_lines(files).contains(x),
        forall|i: int, j: int|
            0 <= i < j < aggregated_keys(files).len() ==> aggregated_keys(files)[i]
                != aggregated_keys(files)[j],
{
    lemma_dedup_first_membership(all_key_lines(files), x);
    lemma_dedup_first_no_duplicates(all_key_lines(files));
}

/// Every aggregated key is a non-empty line without a terminator in it.
pub proof fn lemma_aggregated_keys_wellformed(files: Seq<Seq<u8>>)
    ensures
        forall|k: int|
            0 <= k < aggregated_keys(files).len() ==> (#[trigger] aggregated_keys(files)[k]).len()
                > 0 && newline_free(aggregated_keys(files)[k]),
{
    lemma_all_key_lines_wellformed(files);
    let agg = aggregated_keys(files);
    assert forall|k: int|
        0 <= k < agg.len() implies (#[trigger] agg[k]).len() > 0 && newline_free(agg[k]) by {
        assert(agg.contains(agg[k]));
        lemma_dedup_first_membership(all_key_lines(files), agg[k]);
        let j = choose|j: int|
            0 <= j < all_key_lines(files).len() && all_key_lines(files)[j] == agg[k];
    }
}

proof fn lemma_joined_trailing(keys: Seq<Seq<u8>>)
    requires
        keys.len() > 0,
        forall|k: int| 0 <= k < keys.len() ==> (#[trigger] keys[k]).len() > 0 && newline_free(
            keys[k],
        ),
    ensures
        joined_keys(keys).len() >= 2,
        joined_keys(keys).last() == 10,
        joined_keys(keys)[joined_keys(keys).len() - 2] != 10,
{
    let j = joined_keys(keys);
    let last = keys.last();
    assert(last == keys[keys.len() - 1]);
    let before = joined_keys(keys.drop_last()) + last;
    assert(j == before + seq![10u8]);
    assert(j.last() == 10);
    assert(j[j.len() - 2] == before.last());
    assert(before.last() == last.last());
    assert(last[last.len() - 1] != 10);
}

/// The aggregated payload ends with exactly one line terminator: its final
/// byte is a newline and the byte before it is not.
pub proof fn lemma_payload_single_trailing_newline(files: Seq<Seq<u8>>)
    requires
        aggregated_keys(files).len() > 0,
    ensures
        joined_keys(aggregated_keys(files)).len() >= 2,
        joined_keys(aggregated_keys(files)).last() == 10,
        joined_keys(aggregated_keys(files))[joined_keys(aggregated_keys(files)).len() - 2] != 10,
{
    lemma_aggregated_keys_wellformed(files);
    lemma_joined_trailing(aggregated_keys(files));
}

/// Byte-vector equality.
pub fn bytes_eq(a: &Vec<u8>, b: &Vec<u8>) -> (r: bool)
    ensures
        r == (a@ == b@),
{
    let na = a.len();
    let nb = b.len();
    if na != nb {
        return false;
    }
    let mut i: usize = 0;
    while i < na
        invariant
            0 <= i <= na,
            na == a@.len(),
            na == b@.len(),
            forall|k: int| 0 <= k < i ==> a@[k] == b@[k],
        decreases na - i,
    {
        if a[i] != b[i] {
            return false;
        }
        i += 1;
    }
    proof {
        assert(a@ =~= b@);
    }
    true
}

/// Membership of one line among the collected ones.
fn contains_bytes(v: &Vec<Vec<u8>>, x: &Vec<u8>) -> (r: bool)
    ensures
        r == byte_views(v@).contains(x@),
{
    let n = v.len();
    let mut i: usize = 0;
    while i < n
        invariant
            0 <= i <= n,
            n == v@.len(),
            forall|k: int| 0 <= k < i ==> v@[k]@ != x@,
        decreases n - i,
    {
        if bytes_eq(&v[i], x) {
            proof {
                assert(byte_views(v@)[i as int] == x@);
            }
            return true;
        }
        i += 1;
    }
    proof {
        assert(forall|k: int| 0 <= k < byte_views(v@).len() ==> byte_views(v@)[k] != x@);
    }
    false
}

/// Collects the trimmed, non-empty lines of one file's content into the
/// accumulator, skipping every line already present.
pub fn collect_key_lines(content: &Vec<u8>, unique: &mut Vec<Vec<u8>>)
    ensures
        byte_views(final(unique)@) == dedup_extend(
            byte_views(old(unique)@),
            file_key_lines(content@),
        ),
{
    let lines = split_lines_exec(content);
    let n = lines.len();
    let mut i: usize = 0;
    while i < n
        invariant
            0 <= i <= n,
            n == lines@.len(),
            byte_views(lines@) == split_lines(content@),
            byte_views(unique@) == dedup_extend(
                byte_views(old(unique)@),
                clean_lines(split_lines(content@).take(i as int)),
            ),
        decreases n - i,
    {
        let ghost pre = clean_lines(split_lines(content@).take(i as int));
        proof {
            let s = split_lines(content@);
            assert(s.take(i + 1).drop_last() =~= s.take(i as int));
            assert(s.take(i + 1).last() == s[i as int]);
            assert(s[i as int] == lines@[i as int]@);
        }
        let t = trim_bytes(&lines[i]);
        proof {
            let s = split_lines(content@);
            let cl = clean_lines(s.take(i as int));
            if trimmed(s[i as int]).len() > 0 {
                assert(cl.push(trimmed(s[i as int])).drop_last() =~= cl);
            }
        }
        if t.len() > 0 {
            if !contains_bytes(unique, &t) {
                unique.push(t);
                proof {
                    assert(byte_views(unique@) =~= byte_views(unique@.drop_last()).push(
                        unique@.last()@,
                    ));
                }
            }
        }
        i += 1;
    }
    proof {
        assert(split_lines(content@).take(n as int) =~= split_lines(content@));
    }
}

/// Joins the collected keys into the final payload.
fn join_keys(keys: &Vec<Vec<u8>>) -> (r: Vec<u8>)
    ensures
        r@ == joined_keys(byte_views(keys@)),
{
    let n = keys.len();
    let mut out: Vec<u8> = Vec::new();
    let mut i: usize = 0;
    while i < n
        invariant
            0 <= i <= n,
            n == keys@.len(),
            out@ == joined_keys(byte_views(keys@).take(i as int)),
        decreases n - i,
    {
        let ghost pre = out@;
        proof {
            assert(byte_views(keys@).take(i + 1).drop_last() =~= byte_views(keys@).take(i as int));
            assert(byte_views(keys@).take(i + 1).last() == keys@[i as int]@);
        }
        let key = &keys[i];
        let m = key.len();
        let mut j: usize = 0;
        while j < m
            invariant
                0 <= j <= m,
                m == key@.len(),
                out@ == pre + key@.take(j as int),
            decreases m - j,
        {
            out.push(key[j]);
            proof {
                assert(pre + key@.take(j + 1) =~= (pre + key@.take(j as int)).push(key@[j as int]));
            }
            j += 1;
        }
        out.push(10);
        proof {
            assert(key@.take(m as int) =~= key@);
            assert((pre + key@).push(10u8) =~= pre + key@ + seq![10u8]);
        }
        i += 1;
    }
    proof {
        assert(byte_views(keys@).take(n as int) =~= byte_views(keys@));
    }
    out
}

/// Aggregates the SSH public keys found in the given file contents into one
/// newline-joined payload: lines are trimmed, empty lines dropped, duplicates
/// kept only at their first occurrence across all sources combined, and every
/// kept key is followed by one newline. An aggregation that finds no key at
/// all is refused: a sandbox must never be exposed for remote login with zero
/// trusted keys.
pub fn aggregate_authorized_keys(files: &Vec<Vec<u8>>) -> (r: Result<Vec<u8>, LaunchError>)
    ensures
        aggregated_keys(byte_views(files@)).len() == 0 ==> (r matches Err(e)
            && e.is_validation_with(
            "no SSH public keys found. Add ~/.ssh/*.pub or set DAVY_SSH_AUTHORIZED_KEYS_FILE"@,
        )),
        aggregated_keys(byte_views(files@)).len() > 0 ==> (r matches Ok(payload) && payload@
            == joined_keys(aggregated_keys(byte_views(files@)))),
{
    let n = files.len();
    let mut unique: Vec<Vec<u8>> = Vec::new();
    let mut i: usize = 0;
    proof {
        assert(byte_views(Seq::<Vec<u8>>::empty()) =~= Seq::<Seq<u8>>::empty());
    }
    while i < n
        invariant
            0 <= i <= n,
            n == files@.len(),
            byte_views(unique@) == dedup_first(all_key_lines(byte_views(files@).take(i as int))),
        decreases n - i,
    {
        let ghost sofar = all_key_lines(byte_views(files@).take(i as int));
        collect_key_lines(&files[i], &mut unique);
        proof {
            lemma_dedup_extend_concat(sofar, file_key_lines(files@[i as int]@));
            assert(byte_views(files@).take(i + 1).drop_last() =~= byte_views(files@).take(i as int));
            assert(byte_views(files@).take(i + 1).last() == files@[i as int]@);
        }
        i += 1;
    }
    proof {
        assert(byte_views(files@).take(n as int) =~= byte_views(files@));
    }
    if unique.len() == 0 {
        Err(
            LaunchError::Validation(
                "no SSH public keys found. Add ~/.ssh/*.pub or set DAVY_SSH_AUTHORIZED_KEYS_FILE".to_owned(),
            ),
        )
    } else {
        Ok(join_keys(&unique))
    }
}

/// Lexicographic byte order, the order in which discovered `*.pub` files are
/// read, so that aggregation is deterministic.
pub open spec fn lex_le(a: Seq<u8>, b: Seq<u8>) -> bool
    decreases a.len(),
{
    if a.len() == 0 {
        true
    } else if b.len() == 0 {
        false
    } else if a.first() < b.first() {
        true
    } else if a.first() > b.first() {
        false
    } else {
        lex_le(a.drop_first(), b.drop_first())
    }
}

/// Strict lexicographic byte order.
pub open spec fn lex_lt(a: Seq<u8>, b: Seq<u8>) -> bool {
    lex_le(a, b) && a != b
}

proof fn lemma_lex_le_total(a: Seq<u8>, b: Seq<u8>)
    ensures
        lex_le(a, b) || lex_le(b, a),
    decreases a.len(),
{
    if a.len() > 0 && b.len() > 0 && a.first() == b.first() {
        lemma_lex_le_total(a.drop_first(), b.drop_first());
    }
}

proof fn lemma_lex_le_antisymmetric(a: Seq<u8>, b: Seq<u8>)
    ensures
        lex_le(a, b) && lex_le(b, a) ==> a == b,
    decreases a.len(),
{
    if a.len() > 0 && b.len() > 0 && a.first() == b.first() {
        lemma_lex_le_antisymmetric(a.drop_first(), b.drop_first());
        if lex_le(a, b) && lex_le(b, a) {
            assert(lex_le(a.drop_first(), b.drop_first()));
            assert(lex_le(b.drop_first(), a.drop_first()));
            assert(a.drop_first() == b.drop_first());
            assert forall|k: int| 0 <= k < a.len() implies a[k] == b[k] by {
                if k > 0 {
                    assert(a[k] == a.drop_first()[k - 1]);
                    assert(b[k] == b.drop_first()[k - 1]);
                }
            }
            assert(a =~= b);
        }
    }
}

proof fn lemma_lex_le_transitive(a: Seq<u8>, b: Seq<u8>, c: Seq<u8>)
    ensures
        lex_le(a, b) && lex_le(b, c) ==> lex_le(a, c),
    decreases a.len(),
{
    if lex_le(a, b) && lex_le(b, c) && a.len() > 0 {
        if a.first() == b.first() && b.first() == c.first() {
            lemma_lex_le_transitive(a.drop_first(), b.drop_first(), c.drop_first());
        }
    }
}

/// Byte-wise lexicographic comparison.
pub fn lex_le_bytes(a: &Vec<u8>, b: &Vec<u8>) -> (r: bool)
    ensures
        r == lex_le(a@, b@),
{
    let na = a.len();
    let nb = b.len();
    let min = if na < nb {
        na
    } else {
        nb
    };
    let mut i: usize = 0;
    proof {
        assert(a@.skip(0) =~= a@);
        assert(b@.skip(0) =~= b@);
    }
    while i < min
        invariant
            0 <= i <= min,
            min <= na,
            min <= nb,
            min == if na < nb {
                na
            } else {
                nb
            },
            na == a@.len(),
            nb == b@.len(),
            lex_le(a@, b@) == lex_le(a@.skip(i as int), b@.skip(i as int)),
        decreases min - i,
    {
        proof {
            assert(a@.skip(i as int).first() == a@[i as int]);
            assert(b@.skip(i as int).first() == b@[i as int]);
            assert(a@.skip(i as int).drop_first() =~= a@.skip(i + 1));
            assert(b@.skip(i as int).drop_first() =~= b@.skip(i + 1));
        }
        if a[i] < b[i] {
            return true;
        }
        if a[i] > b[i] {
            return false;
        }
        i += 1;
    }
    proof {
        if na <= nb {
            assert(a@.skip(i as int).len() == 0);
        } else {
            assert(a@.skip(i as int).len() > 0);
            assert(b@.skip(i as int).len() == 0);
        }
    }
    na <= nb
}

/// The byte suffix that marks a public-key file.
pub open spec fn pub_suffix() -> Seq<u8> {
    seq![46u8, 112u8, 117u8, 98u8]
}

/// A path naming a public-key file: it ends in `.pub`, and that suffix is an
/// extension of some file name, not a whole hidden-file name.
pub open spec fn is_pub_path(p: Seq<u8>) -> bool {
    p.len() >= 5 && p.subrange(p.len() - 4, p.len() as int) == pub_suffix() && p[p.len() - 5] != 47
}

fn is_pub_path_exec(p: &Vec<u8>) -> (r: bool)
    ensures
        r == is_pub_path(p@),
{
    let n = p.len();
    if n < 5 {
        return false;
    }
    let ok = p[n - 4] == 46 && p[n - 3] == 112 && p[n - 2] == 117 && p[n - 1] == 98 && p[n - 5]
        != 47;
    proof {
        let sub = p@.subrange(n - 4, n as int);
        assert(sub.len() == 4);
        assert(sub[0] == p@[n - 4] && sub[1] == p@[n - 3] && sub[2] == p@[n - 2] && sub[3] == p@[n
            - 1]);
        if p@[n - 4] == 46 && p@[n - 3] == 112 && p@[n - 2] == 117 && p@[n - 1] == 98 {
            assert(sub =~= pub_suffix());
        } else {
            assert(sub != pub_suffix());
        }
    }
    ok
}

/// The order on candidate files: by path bytes, ties broken by position in
/// the directory listing, so the order is strict and total.
pub open spec fn name_index_lt(names: Seq<Seq<u8>>, i: int, j: int) -> bool {
    lex_lt(names[i], names[j]) || (names[i] == names[j] && i < j)
}

proof fn lemma_name_index_lt_transitive(names: Seq<Seq<u8>>, i: int, j: int, k: int)
    requires
        0 <= i < names.len(),
        0 <= j < names.len(),
        0 <= k < names.len(),
        name_index_lt(names, i, j),
        name_index_lt(names, j, k),
    ensures
        name_index_lt(names, i, k),
{
    lemma_lex_le_transitive(names[i], names[j], names[k]);
    lemma_lex_le_antisymmetric(names[i], names[j]);
    lemma_lex_le_antisymmetric(names[j], names[k]);
    lemma_lex_le_antisymmetric(names[i], names[k]);
}

fn le_pair(a: &Vec<u8>, ai: usize, b: &Vec<u8>, bi: usize) -> (r: bool)
    ensures
        r == (lex_lt(a@, b@) || (a@ == b@ && ai <= bi)),
{
    if bytes_eq(a, b) {
        ai <= bi
    } else {
        lex_le_bytes(a, b)
    }
}

fn placed_before(names: &Vec<Vec<u8>>, r: &Vec<usize>, p: usize, j: usize) -> (res: bool)
    requires
        p < r@.len(),
        j < names@.len(),
        r@[p as int] < names@.len(),
    ensures
        ({
            let a = names@[r@[p as int] as int]@;
            let b = names@[j as int]@;
            res == (lex_lt(a, b) || (a == b && r@[p as int] <= j))
        }),
{
    let rp = r[p];
    le_pair(&names[rp], rp, &names[j], j)
}

/// Picks, from a directory listing, the indices of the `*.pub` regular files,
/// ordered lexicographically by path bytes (ties, which a directory cannot
/// produce, by listing position). Aggregation reads the files in this order.
pub fn key_file_order(names: &Vec<Vec<u8>>, is_file: &Vec<bool>) -> (r: Vec<usize>)
    requires
        names@.len() == is_file@.len(),
    ensures
        forall|k: int|
            0 <= k < r@.len() ==> (#[trigger] r@[k]) < names@.len() && is_pub_path(
                names@[r@[k] as int]@,
            ) && is_file@[r@[k] as int],
        forall|j: int|
            0 <= j < names@.len() && is_pub_path(#[trigger] names@[j]@) && is_file@[j]
                ==> r@.contains(j as usize),
        forall|k1: int, k2: int|
            0 <= k1 < k2 < r@.len() ==> name_index_lt(
                byte_views(names@),
                r@[k1] as int,
                r@[k2] as int,
            ),
{
    let n = names.len();
    let mut r: Vec<usize> = Vec::new();
    let mut j: usize = 0;
    while j < n
        invariant
            0 <= j <= n,
            n == names@.len(),
            n == is_file@.len(),
            forall|k: int|
                0 <= k < r@.len() ==> (#[trigger] r@[k]) < j && is_pub_path(names@[r@[k] as int]@)
                    && is_file@[r@[k] as int],
            forall|q: int|
                0 <= q < j && is_pub_path(#[trigger] names@[q]@) && is_file@[q] ==> r@.contains(
                    q as usize,
                ),
            forall|k1: int, k2: int|
                0 <= k1 < k2 < r@.len() ==> name_index_lt(
                    byte_views(names@),
                    r@[k1] as int,
                    r@[k2] as int,
                ),
        decreases n - j,
    {
        if is_pub_path_exec(&names[j]) && is_file[j] {
            let ghost v = byte_views(names@);
            let mut p: usize = 0;
            while p < r.len() && placed_before(names, &r, p, j)
                invariant
                    0 <= p <= r@.len(),
                    n == names@.len(),
                    j < n,
                    v == byte_views(names@),
                    forall|k: int|
                        0 <= k < r@.len() ==> (#[trigger] r@[k]) < j && is_pub_path(
                            names@[r@[k] as int]@,
                        ) && is_file@[r@[k] as int],
                    forall|k: int| 0 <= k < p ==> name_index_lt(v, r@[k] as int, j as int),
                decreases r@.len() - p,
            {
                proof {
                    let rp = r@[p as int] as int;
                    assert(v[rp] == names@[rp]@);
                    assert(v[j as int] == names@[j as int]@);
                }
                p += 1;
            }
            proof {
                if p < r@.len() {
                    let rp = r@[p as int] as int;
                    assert(v[rp] == names@[rp]@ && v[j as int] == names@[j as int]@);
                    lemma_lex_le_total(v[rp], v[j as int]);
                    assert(name_index_lt(v, j as int, rp));
                }
            }
            let ghost old_r = r@;
            r.insert(p, j);
            proof {
                old_r.insert_ensures(p as int, j);
                assert forall|k: int|
                    0 <= k < r@.len() implies (#[trigger] r@[k]) < j + 1 && is_pub_path(
                    names@[r@[k] as int]@,
                ) && is_file@[r@[k] as int] by {
                    if k < p {
                        assert(r@[k] == old_r[k]);
                    } else if k == p {
                        assert(r@[k] == j);
                    } else {
                        assert(r@[k] == old_r[k - 1]);
                    }
                }
                assert forall|q: int|
                    0 <= q < j + 1 && is_pub_path(#[trigger] names@[q]@) && is_file@[q]
                        implies r@.contains(q as usize) by {
                    if q == j {
                        assert(r@[p as int] == j);
                    } else {
                        assert(old_r.contains(q as usize));
                        let k = choose|k: int| 0 <= k < old_r.len() && old_r[k] == q as usize;
                        if k < p {
                            assert(r@[k] == q as usize);
                        } else {
                            assert(r@[k + 1] == q as usize);
                        }
                    }
                }
                assert forall|k1: int, k2: int|
                    0 <= k1 < k2 < r@.len() implies name_index_lt(
                    v,
                    r@[k1] as int,
                    r@[k2] as int,
                ) by {
                    if k2 < p {
                        assert(r@[k1] == old_r[k1] && r@[k2] == old_r[k2]);
                    } else if k1 > p {
                        assert(r@[k1] == old_r[k1 - 1] && r@[k2] == old_r[k2 - 1]);
                    } else if k1 < p && k2 == p {
                        assert(r@[k1] == old_r[k1] && r@[k2] == j);
                    } else if k1 == p {
                        assert(r@[k1] == j && r@[k2] == old_r[k2 - 1]);
                        let rp = old_r[p as int] as int;
                        assert(name_index_lt(v, j as int, rp));
                        if k2 - 1 > p {
                            lemma_name_index_lt_transitive(
                                v,
                                j as int,
                                rp,
                                old_r[k2 - 1] as int,
                            );
                        }
                    } else {
                        assert(r@[k1] == old_r[k1] && r@[k2] == old_r[k2 - 1]);
                        if k2 - 1 == k1 {
                            assert(name_index_lt(v, old_r[k1] as int, j as int));
                            assert(false);
                        }
                    }
                }
            }
        }
        j += 1;
    }
    r
}

/// Where the authorized keys come from: exactly one file when an override is
/// configured, otherwise the default file plus a scan of the SSH directory.
pub enum KeySourcePlan {
    /// Read exactly this file; no other source is consulted.
    SingleFile(String),
    /// Read the default authorized-keys file if it is a regular file, then
    /// every `*.pub` regular file in the SSH directory in lexicographic
    /// order.
    ScanDefaults { authorized_keys: String, ssh_dir: String },
}

/// Chooses the key sources: an override file is exclusive and must exist;
/// without one, the defaults under the home directory are scanned.
pub fn plan_key_sources(override_path: Option<String>, override_is_file: bool, home: &String) -> (r:
    Result<KeySourcePlan, LaunchError>)
    ensures
        match override_path {
            Some(p) => {
                if override_is_file {
                    r matches Ok(KeySourcePlan::SingleFile(f)) && f@ == p@
                } else {
                    r matches Err(e) && e.is_configuration_with(
                        "DAVY_SSH_AUTHORIZED_KEYS_FILE not found: "@ + p@,
                    )
                }
            },
            None => r matches Ok(KeySourcePlan::ScanDefaults { authorized_keys, ssh_dir })
                && authorized_keys@ == home@ + "/.ssh/authorized_keys"@ && ssh_dir@ == home@
                + "/.ssh"@,
        },
{
    match override_path {
        Some(p) => {
            if override_is_file {
                Ok(KeySourcePlan::SingleFile(p))
            } else {
                Err(
                    LaunchError::Configuration(
                        concat2("DAVY_SSH_AUTHORIZED_KEYS_FILE not found: ", p.as_str()),
                    ),
                )
            }
        },
        None => Ok(
            KeySourcePlan::ScanDefaults {
                authorized_keys: concat2(home.as_str(), "/.ssh/authorized_keys"),
                ssh_dir: concat2(home.as_str(), "/.ssh"),
            },
        ),
    }
}

/// What `Engine::encode` returns for the standard alphabet with padding.
pub uninterp spec fn base64_standard_of(b: Seq<u8>) -> Seq<char>;

/// Relies on base64's `Engine::encode` with the standard engine: the
/// encoding is a function of the input bytes alone, four output characters
/// for every three input bytes, rounded up.
#[verifier::external_body]
fn base64_encode_standard(b: &Vec<u8>) -> (r: String)
    requires
        b@.len() <= 0x1000_0000_0000_0000,
    ensures
        r@ == base64_standard_of(b@),
        r@.len() == 4 * ((b@.len() + 2) / 3),
{
    base64::engine::general_purpose::STANDARD.encode(b.as_slice())
}

/// Encodes the aggregated payload for delivery in one environment variable.
/// Only a payload too large for the encoder's output to be addressed is
/// refused, which no real key material approaches.
pub fn encode_authorized_keys(payload: &Vec<u8>) -> (r: Result<String, LaunchError>)
    ensures
        payload@.len() <= 0x1000_0000_0000_0000 ==> (r matches Ok(s) && s@ == base64_standard_of(
            payload@,
        )),
        payload@.len() > 0x1000_0000_0000_0000 ==> (r matches Err(e) && e.is_validation_with(
            "authorized-keys payload too large to encode"@,
        )),
{
    if (payload.len() as u64) <= 0x1000_0000_0000_0000u64 {
        Ok(base64_encode_standard(payload))
    } else {
        Err(LaunchError::Validation("authorized-keys payload too large to encode".to_owned()))
    }
}

} // verus!
