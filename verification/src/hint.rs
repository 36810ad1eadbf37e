//! Keyboard hints: the matches on the viewport, and the labels by which one
//! of them is chosen.

use vstd::prelude::*;

use crate::cell::Hyperlink;
use crate::config::{Hint, HintAction, HintActionView};
use crate::index::{Column, Line, Point};
use crate::search::{match_on_grid, Match, RegexSearch};
use crate::term::{Term, TermView};
use crate::text::chars_of;

verus! {

/// Number of lines beyond the viewport over which a wrapped line is
/// followed when the viewport is searched.
pub const MAX_SEARCH_LINES: usize = 100;

/// Percentage of the alphabet, counted without its last character, that is
/// kept for the last character of a label.
pub const HINT_SPLIT_PERCENTAGE: u8 = 50;

/// The mathematical model of a label generator.
pub struct HintLabelsView {
    pub alphabet: Seq<char>,
    /// Place in the alphabet of each character of the next label, the last
    /// character first.
    pub indices: Seq<usize>,
    /// The last place whose character may end a label. The characters
    /// behind it stand in every other position.
    pub split_point: nat,
}

/// Whether `indices` can be the places of a label's characters: one of the
/// first `split_point + 1` places for the last character, a later place for
/// every other.
pub open spec fn valid_indices(indices: Seq<usize>, split_point: nat, alphabet_len: nat) -> bool {
    &&& indices.len() >= 1
    &&& indices[0] <= split_point
    &&& forall|j: int| 1 <= j < indices.len() ==> split_point < #[trigger] indices[j] < alphabet_len
}

/// The label whose characters stand at the places `indices`.
pub open spec fn label_of(alphabet: Seq<char>, indices: Seq<usize>) -> Seq<char> {
    Seq::new(indices.len(), |i: int| alphabet[indices[indices.len() - 1 - i] as int])
}

/// The places after a carry into position `pos`: a position that has
/// reached the end of the alphabet starts anew behind the split point and
/// carries on; the label grows by a character where every position has.
pub open spec fn carried(indices: Seq<usize>, pos: int, split_point: nat, alphabet_len: nat) -> Seq<
    usize,
>
    decreases indices.len() - pos,
{
    if pos >= indices.len() || pos < 0 {
        indices.push((split_point + 1) as usize)
    } else if indices[pos] + 1 == alphabet_len {
        carried(indices.update(pos, (split_point + 1) as usize), pos + 1, split_point, alphabet_len)
    } else {
        indices.update(pos, (indices[pos] + 1) as usize)
    }
}

/// The places of the label that follows the one at `indices`.
pub open spec fn successor(indices: Seq<usize>, split_point: nat, alphabet_len: nat) -> Seq<usize> {
    if indices[0] < split_point {
        indices.update(0, (indices[0] + 1) as usize)
    } else {
        carried(indices.update(0, 0), 1, split_point, alphabet_len)
    }
}

/// The places of the `n`-th label, counted from zero.
pub open spec fn nth_indices(n: nat, split_point: nat, alphabet_len: nat) -> Seq<usize>
    decreases n,
{
    if n == 0 {
        seq![0usize]
    } else {
        successor(nth_indices((n - 1) as nat, split_point, alphabet_len), split_point, alphabet_len)
    }
}

/// The `n`-th label over `alphabet`, counted from zero.
pub open spec fn nth_label(alphabet: Seq<char>, split_point: nat, n: nat) -> Seq<char> {
    label_of(alphabet, nth_indices(n, split_point, alphabet.len()))
}

/// Whether `a` is the start of `b` and shorter than it.
pub open spec fn is_strict_prefix(a: Seq<char>, b: Seq<char>) -> bool {
    a.len() < b.len() && b.subrange(0, a.len() as int) == a
}

/// The place of the split for an alphabet of `len` characters, of which
/// `percent` in a hundred, counted without the last, may end a label.
pub open spec fn split_point_of(len: nat, percent: nat) -> nat {
    ((len - 1) * percent / 100) as nat
}

proof fn lemma_carried_valid(indices: Seq<usize>, pos: int, split_point: nat, alphabet_len: nat)
    requires
        valid_indices(indices, split_point, alphabet_len),
        1 <= pos <= indices.len(),
        split_point + 1 < alphabet_len <= usize::MAX,
    ensures
        valid_indices(carried(indices, pos, split_point, alphabet_len), split_point, alphabet_len),
    decreases indices.len() - pos,
{
    if pos < indices.len() && indices[pos] + 1 == alphabet_len {
        lemma_carried_valid(
            indices.update(pos, (split_point + 1) as usize),
            pos + 1,
            split_point,
            alphabet_len,
        );
    }
}

/// Every label that is generated has valid places.
pub proof fn lemma_nth_indices_valid(n: nat, split_point: nat, alphabet_len: nat)
    requires
        split_point + 1 < alphabet_len <= usize::MAX,
    ensures
        valid_indices(nth_indices(n, split_point, alphabet_len), split_point, alphabet_len),
    decreases n,
{
    if n > 0 {
        lemma_nth_indices_valid((n - 1) as nat, split_point, alphabet_len);
        let prev = nth_indices((n - 1) as nat, split_point, alphabet_len);
        if prev[0] >= split_point {
            lemma_carried_valid(prev.update(0, 0), 1, split_point, alphabet_len);
        }
    }
}

/// No label is the start of a longer label: a label's last character comes
/// from the first part of the alphabet, every other from the rest, and no
/// character stands in both.
pub proof fn law_labels_prefix_free(
    alphabet: Seq<char>,
    split_point: nat,
    a: Seq<usize>,
    b: Seq<usize>,
)
    requires
        alphabet.no_duplicates(),
        valid_indices(a, split_point, alphabet.len()),
        valid_indices(b, split_point, alphabet.len()),
        split_point < alphabet.len(),
    ensures
        !is_strict_prefix(label_of(alphabet, a), label_of(alphabet, b)),
{
    let la = label_of(alphabet, a);
    let lb = label_of(alphabet, b);
    if la.len() < lb.len() {
        let last = la.len() - 1;
        assert(la[last] == alphabet[a[0] as int]);
        assert(lb[last] == alphabet[b[b.len() - la.len()] as int]);
        assert(b[b.len() - la.len()] > split_point);
        assert(lb.subrange(0, la.len() as int)[last] == lb[last]);
    }
}

/// Of the labels that are generated for an alphabet without a repeated
/// character, none is the start of another.
pub proof fn law_generated_labels_prefix_free(alphabet: Seq<char>, split_point: nat, i: nat, j: nat)
    requires
        alphabet.no_duplicates(),
        split_point + 1 < alphabet.len() <= usize::MAX,
    ensures
        !is_strict_prefix(nth_label(alphabet, split_point, i), nth_label(alphabet, split_point, j)),
{
    lemma_nth_indices_valid(i, split_point, alphabet.len());
    lemma_nth_indices_valid(j, split_point, alphabet.len());
    law_labels_prefix_free(
        alphabet,
        split_point,
        nth_indices(i, split_point, alphabet.len()),
        nth_indices(j, split_point, alphabet.len()),
    );
}

/// Whether the places `a` and `b`, looked at below position `k`, differ
/// first, from the highest position down, in a position in which `a` has
/// the lower place.
pub open spec fn lower_below(a: Seq<usize>, b: Seq<usize>, k: int) -> bool
    decreases k,
{
    if k <= 0 {
        false
    } else if a[k - 1] != b[k - 1] {
        a[k - 1] < b[k - 1]
    } else {
        lower_below(a, b, k - 1)
    }
}

/// Whether the label at the places `a` is generated before the label at
/// the places `b`: a shorter label comes first; of two labels of one
/// length, the one that has the lower place in the first position, from
/// the front of the label, in which they differ.
pub open spec fn generated_before(a: Seq<usize>, b: Seq<usize>) -> bool {
    a.len() < b.len() || (a.len() == b.len() && lower_below(a, b, a.len() as int))
}

proof fn lemma_lower_irreflexive(a: Seq<usize>, k: int)
    ensures
        !lower_below(a, a, k),
    decreases k,
{
    if k > 0 {
        lemma_lower_irreflexive(a, k - 1);
    }
}

proof fn lemma_lower_transitive(a: Seq<usize>, b: Seq<usize>, c: Seq<usize>, k: int)
    requires
        lower_below(a, b, k),
        lower_below(b, c, k),
    ensures
        lower_below(a, c, k),
    decreases k,
{
    if k > 0 && a[k - 1] == b[k - 1] && b[k - 1] == c[k - 1] {
        lemma_lower_transitive(a, b, c, k - 1);
    }
}

/// Places that agree above position `p` and differ in it are ordered by
/// that position.
proof fn lemma_lower_from(a: Seq<usize>, b: Seq<usize>, k: int, p: int)
    requires
        0 <= p < k,
        a[p] < b[p],
        forall|q: int| p < q < k ==> a[q] == b[q],
    ensures
        lower_below(a, b, k),
    decreases k,
{
    if k - 1 != p {
        lemma_lower_from(a, b, k - 1, p);
    }
}

/// A carry leads to places that are generated later.
proof fn lemma_carried_later(
    from: Seq<usize>,
    indices: Seq<usize>,
    pos: int,
    split_point: nat,
    alphabet_len: nat,
)
    requires
        1 <= pos <= indices.len(),
        indices.len() == from.len(),
        forall|q: int| pos <= q < from.len() ==> indices[q] == from[q],
        forall|q: int| 1 <= q < from.len() ==> from[q] < alphabet_len,
        split_point + 1 < alphabet_len <= usize::MAX,
    ensures
        generated_before(from, carried(indices, pos, split_point, alphabet_len)),
    decreases indices.len() - pos,
{
    if pos < indices.len() {
        if indices[pos] + 1 == alphabet_len {
            lemma_carried_later(
                from,
                indices.update(pos, (split_point + 1) as usize),
                pos + 1,
                split_point,
                alphabet_len,
            );
        } else {
            let next = indices.update(pos, (indices[pos] + 1) as usize);
            lemma_lower_from(from, next, from.len() as int, pos);
        }
    }
}

/// Every label is generated before its successor.
proof fn lemma_successor_later(indices: Seq<usize>, split_point: nat, alphabet_len: nat)
    requires
        valid_indices(indices, split_point, alphabet_len),
        split_point + 1 < alphabet_len <= usize::MAX,
    ensures
        generated_before(indices, successor(indices, split_point, alphabet_len)),
{
    if indices[0] < split_point {
        lemma_lower_from(
            indices,
            indices.update(0, (indices[0] + 1) as usize),
            indices.len() as int,
            0,
        );
    } else {
        lemma_carried_later(indices, indices.update(0, 0), 1, split_point, alphabet_len);
    }
}

/// A label that is generated earlier stands before in the order of the
/// labels.
pub proof fn lemma_nth_indices_ordered(i: nat, j: nat, split_point: nat, alphabet_len: nat)
    requires
        i < j,
        split_point + 1 < alphabet_len <= usize::MAX,
    ensures
        generated_before(
            nth_indices(i, split_point, alphabet_len),
            nth_indices(j, split_point, alphabet_len),
        ),
    decreases j,
{
    let before = nth_indices((j - 1) as nat, split_point, alphabet_len);
    let last = nth_indices(j, split_point, alphabet_len);
    lemma_nth_indices_valid((j - 1) as nat, split_point, alphabet_len);
    lemma_successor_later(before, split_point, alphabet_len);
    if i < j - 1 {
        let first = nth_indices(i, split_point, alphabet_len);
        lemma_nth_indices_ordered(i, (j - 1) as nat, split_point, alphabet_len);
        if first.len() == before.len() && before.len() == last.len() {
            lemma_lower_transitive(first, before, last, first.len() as int);
        }
    }
}

/// No label is generated twice: over an alphabet without a repeated
/// character, the labels of two different turns differ.
pub proof fn law_generated_labels_distinct(alphabet: Seq<char>, split_point: nat, i: nat, j: nat)
    requires
        alphabet.no_duplicates(),
        split_point + 1 < alphabet.len() <= usize::MAX,
        i != j,
    ensures
        nth_label(alphabet, split_point, i) != nth_label(alphabet, split_point, j),
{
    let a = nth_indices(i, split_point, alphabet.len());
    let b = nth_indices(j, split_point, alphabet.len());
    lemma_nth_indices_valid(i, split_point, alphabet.len());
    lemma_nth_indices_valid(j, split_point, alphabet.len());
    if i < j {
        lemma_nth_indices_ordered(i, j, split_point, alphabet.len());
    } else {
        lemma_nth_indices_ordered(j, i, split_point, alphabet.len());
    }
    lemma_lower_irreflexive(a, a.len() as int);
    if label_of(alphabet, a) == label_of(alphabet, b) {
        assert(label_of(alphabet, a).len() == a.len());
        assert(label_of(alphabet, b).len() == b.len());
        assert(a.len() == b.len());
        assert forall|q: int| 0 <= q < a.len() implies a[q] == b[q] by {
            let at = a.len() - 1 - q;
            assert(label_of(alphabet, a)[at] == alphabet[a[q] as int]);
            assert(label_of(alphabet, b)[at] == alphabet[b[q] as int]);
        }
        assert(a =~= b);
    }
}

/// The split leaves a character for the positions before the last: with
/// less than a hundred in a hundred kept for the last character, an
/// alphabet of two characters or more has one behind the split point.
pub proof fn law_split_point_leaves_head(len: nat, percent: nat)
    requires
        len >= 2,
        percent < 100,
    ensures
        split_point_of(len, percent) + 1 < len,
{
    assert((len - 1) * percent / 100 < len - 1) by (nonlinear_arith)
        requires
            len >= 2,
            percent < 100,
    ;
}

/// Of the labels that a generator gives for an alphabet of two characters
/// or more, none of them repeated, no label is the start of another, and no
/// label comes twice.
pub proof fn law_hint_labels_unambiguous(alphabet: Seq<char>, percent: nat, i: nat, j: nat)
    requires
        alphabet.no_duplicates(),
        2 <= alphabet.len() <= usize::MAX,
        percent < 100,
    ensures
        !is_strict_prefix(
            nth_label(alphabet, split_point_of(alphabet.len(), percent), i),
            nth_label(alphabet, split_point_of(alphabet.len(), percent), j),
        ),
        i != j ==> nth_label(alphabet, split_point_of(alphabet.len(), percent), i) != nth_label(
            alphabet,
            split_point_of(alphabet.len(), percent),
            j,
        ),
{
    let split = split_point_of(alphabet.len(), percent);
    law_split_point_leaves_head(alphabet.len(), percent);
    law_generated_labels_prefix_free(alphabet, split, i, j);
    if i != j {
        law_generated_labels_distinct(alphabet, split, i, j);
    }
}

/// Generator of hint labels.
#[derive(Debug)]
pub struct HintLabels {
    alphabet: Vec<char>,
    indices: Vec<usize>,
    split_point: usize,
}

impl View for HintLabels {
    type V = HintLabelsView;

    closed spec fn view(&self) -> HintLabelsView {
        HintLabelsView {
            alphabet: self.alphabet@,
            indices: self.indices@,
            split_point: self.split_point as nat,
        }
    }
}

impl HintLabelsView {
    /// What holds of every generator: a character of the alphabet is left
    /// for the positions before the last, and the places of the next label
    /// are valid.
    pub open spec fn wf(self) -> bool {
        &&& self.split_point + 1 < self.alphabet.len() <= usize::MAX
        &&& valid_indices(self.indices, self.split_point, self.alphabet.len())
    }
}

impl HintLabels {
    /// Creates a generator over `alphabet`. Of its characters, counted
    /// without the last, `split_percent` in a hundred may end a label; the
    /// others stand in the positions before the last.
    pub fn new(alphabet: &str, split_percent: u8) -> (labels: HintLabels)
        requires
            alphabet@.len() >= 2,
            split_percent < 100,
        ensures
            labels@.wf(),
            labels@.alphabet == alphabet@,
            labels@.split_point == split_point_of(alphabet@.len(), split_percent as nat),
            labels@.indices == seq![0usize],
    {
        let alphabet: Vec<char> = chars_of(alphabet);
        let room: u128 = (alphabet.len() - 1) as u128;
        assert(room * (split_percent as u128) <= 0xffff_ffff_ffff_ffff * 100) by (nonlinear_arith)
            requires
                room <= 0xffff_ffff_ffff_ffff,
                split_percent < 100,
        ;
        let split: u128 = room * (split_percent as u128) / 100;
        assert(split < room) by (nonlinear_arith)
            requires
                split == room * (split_percent as u128) / 100,
                split_percent < 100,
                room >= 1,
        ;
        let mut indices: Vec<usize> = Vec::new();
        indices.push(0);
        HintLabels { alphabet, indices, split_point: split as usize }
    }

    /// The next label. The generator goes on to the label after it.
    pub fn next(&mut self) -> (label: Vec<char>)
        requires
            old(self)@.wf(),
        ensures
            final(self)@.wf(),
            label@ == label_of(old(self)@.alphabet, old(self)@.indices),
            final(self)@.alphabet == old(self)@.alphabet,
            final(self)@.split_point == old(self)@.split_point,
            final(self)@.indices == successor(
                old(self)@.indices,
                old(self)@.split_point,
                old(self)@.alphabet.len(),
            ),
    {
        let n: usize = self.indices.len();
        let mut label: Vec<char> = Vec::with_capacity(n);
        let mut i: usize = 0;
        while i < n
            invariant
                i <= n,
                n == self.indices@.len(),
                self@ == old(self)@,
                self@.wf(),
                label@.len() == i,
                forall|k: int|
                    0 <= k < i ==> #[trigger] label@[k] == self.alphabet@[self.indices@[n - 1
                        - k] as int],
            decreases n - i,
        {
            let place: usize = self.indices[n - 1 - i];
            label.push(self.alphabet[place]);
            i += 1;
        }
        assert(label@ =~= label_of(self@.alphabet, self@.indices));
        self.increment();
        label
    }

    /// Goes on to the next label.
    pub fn increment(&mut self)
        requires
            old(self)@.wf(),
        ensures
            final(self)@.wf(),
            final(self)@.alphabet == old(self)@.alphabet,
            final(self)@.split_point == old(self)@.split_point,
            final(self)@.indices == successor(
                old(self)@.indices,
                old(self)@.split_point,
                old(self)@.alphabet.len(),
            ),
    {
        let ghost pre = self@;
        let tail: usize = self.indices[0];
        if tail < self.split_point {
            self.indices[0] = tail + 1;
            return ;
        }
        self.indices[0] = 0;
        let alphabet_len: usize = self.alphabet.len();
        let n: usize = self.indices.len();
        let mut pos: usize = 1;
        while pos < n
            invariant
                1 <= pos <= n,
                n == self.indices@.len(),
                pre == old(self)@,
                alphabet_len == pre.alphabet.len(),
                self.alphabet@ == pre.alphabet,
                self.split_point == pre.split_point,
                pre.wf(),
                valid_indices(self.indices@, pre.split_point, pre.alphabet.len()),
                successor(pre.indices, pre.split_point, pre.alphabet.len()) == carried(
                    self.indices@,
                    pos as int,
                    pre.split_point,
                    pre.alphabet.len(),
                ),
            decreases n - pos,
        {
            if self.indices[pos] + 1 == alphabet_len {
                self.indices[pos] = self.split_point + 1;
            } else {
                let place: usize = self.indices[pos];
                self.indices[pos] = place + 1;
                return ;
            }
            pos += 1;
        }
        self.indices.push(self.split_point + 1);
    }
}

/// Whether the starts of `matches` come in strictly rising reading order.
pub open spec fn starts_rise(matches: Seq<Match>) -> bool {
    forall|i: int, j: int|
        0 <= i < j < matches.len() ==> (#[trigger] matches[i]).start.spec_precedes(
            (#[trigger] matches[j]).start,
        )
}

/// Whether a match of `out` starts where `m` starts and reaches as far as
/// `m` or further.
pub open spec fn covers(out: Seq<Match>, m: Match) -> bool {
    exists|i: int|
        0 <= i < out.len() && (#[trigger] out[i]).start == m.start && !out[i].end.spec_precedes(
            m.end,
        )
}

/// Whether `out` holds, for each start among `raw`, the match of `raw`
/// that starts there and reaches furthest, and nothing else, the starts in
/// rising order.
pub open spec fn is_sorted_dedup_of(out: Seq<Match>, raw: Seq<Match>) -> bool {
    &&& starts_rise(out)
    &&& forall|i: int| 0 <= i < out.len() ==> raw.contains(#[trigger] out[i])
    &&& forall|k: int| 0 <= k < raw.len() ==> covers(out, #[trigger] raw[k])
}

/// How `out` comes from `before` when `m` is put in its place `at`: in the
/// place of a match with the same start if `m` reaches further, or between
/// the matches that start before it and those that start after it.
spec fn placed(before: Seq<Match>, out: Seq<Match>, m: Match, at: int) -> bool {
    &&& 0 <= at <= before.len()
    &&& forall|i: int| 0 <= i < at ==> (#[trigger] before[i]).start.spec_precedes(m.start)
    &&& at < before.len() ==> !before[at].start.spec_precedes(m.start)
    &&& if at < before.len() && before[at].start == m.start {
        out == if before[at].end.spec_precedes(m.end) {
            before.update(at, m)
        } else {
            before
        }
    } else {
        out == before.insert(at, m)
    }
}

proof fn lemma_placed_members(before: Seq<Match>, out: Seq<Match>, seen: Seq<Match>, m: Match, at: int)
    requires
        placed(before, out, m, at),
        forall|i: int| 0 <= i < before.len() ==> seen.contains(#[trigger] before[i]),
    ensures
        forall|i: int| 0 <= i < out.len() ==> seen.push(m).contains(#[trigger] out[i]),
{
    let now = seen.push(m);
    let same_start = at < before.len() && before[at].start == m.start;
    assert forall|i: int| 0 <= i < out.len() implies now.contains(#[trigger] out[i]) by {
        if out[i] == m {
            assert(now[seen.len() as int] == m);
        } else {
            let j = if same_start || i < at {
                i
            } else {
                i - 1
            };
            assert(before[j] == out[i]);
            assert(seen.contains(before[j]));
            let w = choose|w: int| 0 <= w < seen.len() && seen[w] == before[j];
            assert(now[w] == out[i]);
        }
    }
}

proof fn lemma_placed_covers(before: Seq<Match>, out: Seq<Match>, m: Match, at: int, r: Match)
    requires
        placed(before, out, m, at),
        covers(before, r) || r == m,
    ensures
        covers(out, r),
{
    let same_start = at < before.len() && before[at].start == m.start;
    if r == m && !covers(before, r) {
        assert(out[at].start == m.start && !out[at].end.spec_precedes(m.end));
    } else {
        let i0 = choose|i: int|
            0 <= i < before.len() && (#[trigger] before[i]).start == r.start
                && !before[i].end.spec_precedes(r.end);
        let i1 = if same_start || i0 < at {
            i0
        } else {
            i0 + 1
        };
        assert(out[i1].start == r.start && !out[i1].end.spec_precedes(r.end));
    }
}

proof fn lemma_placed_rises(before: Seq<Match>, out: Seq<Match>, m: Match, at: int)
    requires
        placed(before, out, m, at),
        starts_rise(before),
    ensures
        starts_rise(out),
{
    let same_start = at < before.len() && before[at].start == m.start;
    assert forall|i: int, j: int| 0 <= i < j < out.len() implies (
    #[trigger] out[i]).start.spec_precedes((#[trigger] out[j]).start) by {
        if same_start {
            assert(before[i].start.spec_precedes(before[j].start));
            assert(out[i].start == before[i].start);
            assert(out[j].start == before[j].start);
        } else {
            let bi = if i < at {
                i
            } else {
                i - 1
            };
            let bj = if j < at {
                j
            } else {
                j - 1
            };
            if i != at && j != at {
                assert(out[i] == before[bi]);
                assert(out[j] == before[bj]);
                assert(before[bi].start.spec_precedes(before[bj].start));
            } else if i == at {
                assert(out[i] == m);
                assert(out[j] == before[bj]);
                assert(!before[at].start.spec_precedes(m.start));
                if bj > at {
                    assert(before[at].start.spec_precedes(before[bj].start));
                }
            } else {
                assert(out[j] == m);
                assert(out[i] == before[bi]);
            }
        }
    }
}

/// Putting a match in its place keeps the order and the choice of the
/// match that reaches furthest.
proof fn lemma_sort_dedup_step(before: Seq<Match>, out: Seq<Match>, seen: Seq<Match>, m: Match, at: int)
    requires
        is_sorted_dedup_of(before, seen),
        placed(before, out, m, at),
    ensures
        is_sorted_dedup_of(out, seen.push(m)),
{
    lemma_placed_members(before, out, seen, m, at);
    lemma_placed_rises(before, out, m, at);
    let now = seen.push(m);
    assert forall|k: int| 0 <= k < now.len() implies covers(out, #[trigger] now[k]) by {
        if k < seen.len() {
            assert(now[k] == seen[k]);
            assert(covers(before, seen[k]));
        }
        lemma_placed_covers(before, out, m, at, now[k]);
    }
}

/// The place in `out` of the first match that does not start before `p`.
pub open spec fn first_not_before(out: Seq<Match>, p: Point) -> int
    decreases out.len(),
{
    if out.len() == 0 || !out[0].start.spec_precedes(p) {
        0
    } else {
        1 + first_not_before(out.drop_first(), p)
    }
}

/// `out` with `m` put in its place: in the place of a match with the same
/// start if `m` reaches further than it, else before the first match that
/// does not start before `m`.
pub open spec fn placed_in(out: Seq<Match>, m: Match) -> Seq<Match> {
    let at = first_not_before(out, m.start);
    if at < out.len() && out[at].start == m.start {
        if out[at].end.spec_precedes(m.end) {
            out.update(at, m)
        } else {
            out
        }
    } else {
        out.insert(at, m)
    }
}

/// The matches `raw` in the order of their starts, with one match for each
/// start: the one that reaches furthest.
pub open spec fn sorted_dedup(raw: Seq<Match>) -> Seq<Match>
    decreases raw.len(),
{
    if raw.len() == 0 {
        Seq::empty()
    } else {
        placed_in(sorted_dedup(raw.drop_last()), raw.last())
    }
}

proof fn lemma_first_not_before(out: Seq<Match>, p: Point)
    ensures
        0 <= first_not_before(out, p) <= out.len(),
        forall|i: int|
            0 <= i < first_not_before(out, p) ==> (#[trigger] out[i]).start.spec_precedes(p),
        first_not_before(out, p) < out.len() ==> !out[first_not_before(out, p)].start.spec_precedes(
            p,
        ),
    decreases out.len(),
{
    if out.len() != 0 && out[0].start.spec_precedes(p) {
        lemma_first_not_before(out.drop_first(), p);
        let rest = first_not_before(out.drop_first(), p);
        assert forall|i: int| 0 <= i < rest + 1 implies (#[trigger] out[i]).start.spec_precedes(
            p,
        ) by {
            if i > 0 {
                assert(out.drop_first()[i - 1] == out[i]);
            }
        }
        if rest + 1 < out.len() {
            assert(out.drop_first()[rest] == out[rest + 1]);
        }
    }
}

/// After sorting and removing duplicates, the starts of the matches rise
/// strictly, every match is one of those given, and for each match given
/// the one that starts where it starts and reaches furthest is there. So
/// of the matches with one start exactly one is left, the longest.
pub proof fn law_sorted_dedup(raw: Seq<Match>)
    ensures
        is_sorted_dedup_of(sorted_dedup(raw), raw),
    decreases raw.len(),
{
    if raw.len() > 0 {
        law_sorted_dedup(raw.drop_last());
        let before = sorted_dedup(raw.drop_last());
        let m = raw.last();
        lemma_first_not_before(before, m.start);
        lemma_sort_dedup_step(
            before,
            placed_in(before, m),
            raw.drop_last(),
            m,
            first_not_before(before, m.start),
        );
        assert(raw.drop_last().push(m) =~= raw);
    }
}

/// Brings `raw` in the order of the matches' starts and keeps, of the
/// matches with one start, the one that reaches furthest.
pub fn sort_dedup(raw: &Vec<Match>) -> (out: Vec<Match>)
    ensures
        out@ == sorted_dedup(raw@),
        is_sorted_dedup_of(out@, raw@),
{
    let mut out: Vec<Match> = Vec::new();
    let mut k: usize = 0;
    assert(raw@.take(0) =~= Seq::<Match>::empty());
    while k < raw.len()
        invariant
            k <= raw@.len(),
            out@ == sorted_dedup(raw@.take(k as int)),
        decreases raw@.len() - k,
    {
        let m: Match = raw[k];
        let ghost before = out@;
        // The place of the first match that does not start before `m`.
        let mut at: usize = 0;
        assert(out@.skip(0) =~= out@);
        while at < out.len() && out[at].start.precedes(&m.start)
            invariant
                at <= out@.len(),
                out@ == before,
                first_not_before(before, m.start) == at + first_not_before(
                    before.skip(at as int),
                    m.start,
                ),
            decreases out@.len() - at,
        {
            assert(before.skip(at as int).drop_first() =~= before.skip(at + 1));
            at += 1;
        }
        assert(first_not_before(before, m.start) == at);
        let same_start: bool = at < out.len() && out[at].start.line.0 == m.start.line.0
            && out[at].start.column.0 == m.start.column.0;
        if same_start {
            if out[at].end.precedes(&m.end) {
                out[at] = m;
            }
        } else {
            out.insert(at, m);
        }
        proof {
            assert(raw@.take(k + 1).drop_last() =~= raw@.take(k as int));
        }
        k += 1;
    }
    assert(raw@.take(raw@.len() as int) =~= raw@);
    proof {
        law_sorted_dedup(raw@);
    }
    out
}

/// Whether `c` is taken off the end of a match: a character that rather
/// follows a match than belongs to it.
pub open spec fn is_delimiter(c: char) -> bool {
    c == '.' || c == ',' || c == ':' || c == ';' || c == '?' || c == '!' || c == '(' || c == '['
        || c == '\''
}

/// `n` and one, held at the largest number.
pub open spec fn counted_up(n: u64) -> u64 {
    if n < u64::MAX {
        (n + 1) as u64
    } else {
        n
    }
}

/// The matches of `matches` without the leading ones that end above the
/// line `first`.
pub open spec fn skip_above(matches: Seq<Match>, first: int) -> Seq<Match>
    decreases matches.len(),
{
    if matches.len() > 0 && matches[0].end.line.0 < first {
        skip_above(matches.drop_first(), first)
    } else {
        matches
    }
}

/// The leading matches of `matches` that start on the line `last` or
/// above it.
pub open spec fn take_through(matches: Seq<Match>, last: int) -> Seq<Match>
    decreases matches.len(),
{
    if matches.len() > 0 && matches[0].start.line.0 <= last {
        seq![matches[0]] + take_through(matches.drop_first(), last)
    } else {
        Seq::empty()
    }
}

/// State of the search for hyperlinks: the hyperlinks that were found, and
/// the run of cells with one hyperlink that the search is in.
pub struct LinkScan {
    pub known: Seq<Hyperlink>,
    pub open: Option<(Hyperlink, Match)>,
    pub found: Seq<Match>,
}

/// Whether a hyperlink like `link` is among `known`.
pub open spec fn is_known(known: Seq<Hyperlink>, link: Hyperlink) -> bool {
    exists|i: int| 0 <= i < known.len() && (#[trigger] known[i]).same(link)
}

impl LinkScan {
    /// The state after the cell at `point`, which carries `link`: a run goes
    /// on over a cell with its hyperlink and ends before any other; a run
    /// begins on a cell whose hyperlink was not found before.
    pub open spec fn step(self, point: Point, link: Option<Hyperlink>) -> LinkScan {
        let goes_on = match (self.open, link) {
            (Some((h, _)), Some(l)) => l.same(h),
            _ => false,
        };
        if goes_on {
            LinkScan {
                known: self.known,
                open: match self.open {
                    Some((h, m)) => Some((h, Match { start: m.start, end: point })),
                    None => None,
                },
                found: self.found,
            }
        } else {
            let found = match self.open {
                Some((_, m)) => self.found.push(m),
                None => self.found,
            };
            match link {
                Some(l) => if is_known(self.known, l) {
                    LinkScan { known: self.known, open: None, found }
                } else {
                    LinkScan {
                        known: self.known.push(l),
                        open: Some((l, Match { start: point, end: point })),
                        found,
                    }
                },
                None => LinkScan { known: self.known, open: None, found },
            }
        }
    }

    /// The runs that were found, the one that the search is in included.
    pub open spec fn finished(self) -> Seq<Match> {
        match self.open {
            Some((_, m)) => self.found.push(m),
            None => self.found,
        }
    }

    /// Whether the hyperlinks found form a set: no two of them are the same.
    pub open spec fn distinct(self) -> bool {
        forall|i: int, j: int|
            0 <= i < j < self.known.len() ==> !(#[trigger] self.known[i]).same(
                #[trigger] self.known[j],
            )
    }

    /// The hyperlinks found stay a set over a cell, and none of them is
    /// forgotten: a hyperlink is among them afterwards exactly if it was
    /// before or is the one that a new run begins with.
    pub proof fn law_step_keeps_a_set(self, point: Point, link: Option<Hyperlink>, other: Hyperlink)
        requires
            self.distinct(),
        ensures
            self.step(point, link).distinct(),
            is_known(self.known, other) ==> is_known(self.step(point, link).known, other),
            is_known(self.step(point, link).known, other) ==> is_known(self.known, other) || (
            link matches Some(l) && l.same(other)),
    {
        let next = self.step(point, link);
        if is_known(self.known, other) {
            let i = choose|i: int| 0 <= i < self.known.len() && (#[trigger] self.known[i]).same(other);
            assert(next.known[i].same(other));
        }
        if next.known != self.known {
            let l = link->0;
            assert(next.known == self.known.push(l));
            assert(!is_known(self.known, l));
            assert forall|i: int, j: int| 0 <= i < j < next.known.len() implies !(
            #[trigger] next.known[i]).same(#[trigger] next.known[j]) by {
                if j == self.known.len() {
                    assert(self.known[i] == next.known[i]);
                    if next.known[i].same(l) {
                        assert(is_known(self.known, l));
                    }
                }
            }
            if is_known(next.known, other) {
                let i = choose|i: int|
                    0 <= i < next.known.len() && (#[trigger] next.known[i]).same(other);
                if i < self.known.len() {
                    assert(self.known[i].same(other));
                }
            }
        }
    }
}

impl TermView {
    /// The first line that the viewport shows.
    pub open spec fn viewport_start(self) -> int {
        -(self.grid.display_offset as int)
    }

    /// The last line that the viewport shows.
    pub open spec fn viewport_end(self) -> int {
        self.grid.screen_lines() - 1 - self.grid.display_offset
    }

    /// Where the search of the viewport starts: at the start of the wrapped
    /// line that its first line belongs to, but no more than
    /// [`MAX_SEARCH_LINES`] above the viewport.
    pub open spec fn visible_search_start(self) -> Point {
        let wrapped = self.wrapped_line_start(self.viewport_start());
        let limit = self.viewport_start() - MAX_SEARCH_LINES;
        Point {
            line: Line(
                (if wrapped >= limit {
                    wrapped
                } else {
                    limit
                }) as i32,
            ),
            column: Column(0),
        }
    }

    /// Where the search of the viewport ends: at the end of the wrapped line
    /// that its last line belongs to, but no more than [`MAX_SEARCH_LINES`]
    /// below the viewport.
    pub open spec fn visible_search_end(self) -> Point {
        let wrapped = self.wrapped_line_end(self.viewport_end());
        let limit = self.viewport_end() + MAX_SEARCH_LINES;
        Point {
            line: Line(
                (if wrapped <= limit {
                    wrapped
                } else {
                    limit
                }) as i32,
            ),
            column: Column((self.grid.columns - 1) as usize),
        }
    }

    /// The matches of `pattern` of which a part is on the viewport.
    pub open spec fn visible_matches(self, pattern: Seq<char>) -> Seq<Match> {
        take_through(
            skip_above(
                self.matches_from(pattern, self.visible_search_start(), self.visible_search_end()),
                self.viewport_start(),
            ),
            self.viewport_end(),
        )
    }

    /// The state of the search for hyperlinks after the cells from `cur` to
    /// `end`.
    pub open spec fn link_scan_from(self, cur: Point, end: Point, scan: LinkScan) -> LinkScan
        decreases end.line.0 - cur.line.0, self.grid.columns - cur.column.0,
        when self.search_range(cur, end)
    {
        let next = scan.step(cur, self.grid.cell(cur).spec_hyperlink());
        if cur == end {
            next
        } else {
            self.link_scan_from(self.grid.next_point(cur), end, next)
        }
    }

    /// The hyperlinks that a search has found form a set at its end, where
    /// they did at its start.
    pub proof fn law_found_hyperlinks_form_a_set(self, cur: Point, end: Point, scan: LinkScan)
        requires
            self.search_range(cur, end),
            scan.distinct(),
        ensures
            self.link_scan_from(cur, end, scan).distinct(),
        decreases end.line.0 - cur.line.0, self.grid.columns - cur.column.0,
    {
        let link = self.grid.cell(cur).spec_hyperlink();
        let next = scan.step(cur, link);
        scan.law_step_keeps_a_set(cur, link, arbitrary());
        if cur != end {
            self.law_found_hyperlinks_form_a_set(self.grid.next_point(cur), end, next);
        }
    }

    /// The runs of cells on the viewport that carry one hyperlink, for each
    /// hyperlink the first run only.
    pub open spec fn visible_hyperlinks(self) -> Seq<Match> {
        self.link_scan_from(
            Point { line: Line(self.viewport_start() as i32), column: Column(0) },
            Point {
                line: Line(self.viewport_end() as i32),
                column: Column((self.grid.columns - 1) as usize),
            },
            LinkScan { known: Seq::empty(), open: None, found: Seq::empty() },
        ).finished()
    }

    /// The cell before `p`, or `p` where it is the grid's first.
    pub open spec fn step_back(self, p: Point) -> Point {
        if p == self.grid.first_point() {
            p
        } else {
            self.grid.prev_point(p)
        }
    }

    /// Where the scan for brackets stops, and the character it has read
    /// last: before a closing bracket that closes nothing, or at `end`.
    /// `parens` and `brackets` count the brackets that are open at `cur`.
    pub open spec fn bracket_scan(self, cur: Point, end: Point, parens: u64, brackets: u64) -> (
        Point,
        char,
    )
        decreases end.line.0 - cur.line.0, self.grid.columns - cur.column.0,
        when self.search_range(cur, end)
    {
        let c = self.grid.cell(cur).c;
        if (c == ')' && parens == 0) || (c == ']' && brackets == 0) {
            (self.step_back(cur), c)
        } else if cur == end {
            (cur, c)
        } else {
            self.bracket_scan(
                self.grid.next_point(cur),
                end,
                if c == '(' {
                    counted_up(parens)
                } else if c == ')' {
                    (parens - 1) as u64
                } else {
                    parens
                },
                if c == '[' {
                    counted_up(brackets)
                } else if c == ']' {
                    (brackets - 1) as u64
                } else {
                    brackets
                },
            )
        }
    }

    /// The cell at which a match that starts at `start` ends, once the delimiters
    /// at its end are taken off: the search goes back from `cur`, whose
    /// character is `c`, and stops at `start` or at a character that is no
    /// delimiter.
    pub open spec fn trim_delimiters(self, cur: Point, c: char, start: Point) -> Point
        decreases cur.line.0 - start.line.0, cur.column.0,
        when cur.column.0 < self.grid.columns <= usize::MAX && !cur.spec_precedes(start)
    {
        if cur == start || !is_delimiter(c) {
            cur
        } else {
            let p = self.grid.prev_point(cur);
            self.trim_delimiters(p, self.grid.cell(p).c, start)
        }
    }

    /// The match `m` cut at its end: before a closing bracket that closes
    /// nothing within the match, else before the delimiters at its end.
    /// `None` where nothing is left.
    pub open spec fn post_processed(self, m: Match) -> Option<Match> {
        let (p, c) = self.bracket_scan(m.start, m.end, 0, 0);
        if p.spec_precedes(m.start) {
            None
        } else {
            Some(Match { start: m.start, end: self.trim_delimiters(p, c, m.start) })
        }
    }

    /// The cell after `p`, where `p` is not the grid's last.
    pub open spec fn advance(self, p: Point) -> Option<Point> {
        if p == self.grid.last_point() {
            None
        } else {
            Some(self.grid.next_point(p))
        }
    }
}

/// The matches of `search` of which a part is on the viewport.
pub fn visible_regex_match_iter(term: &Term, search: &RegexSearch) -> (found: Vec<Match>)
    requires
        term.wf(),
    ensures
        found@ == term@.visible_matches(search@),
        forall|i: int| 0 <= i < found@.len() ==> match_on_grid(term@.grid, #[trigger] found@[i]),
{
    proof {
        term.lemma_wf();
    }
    let offset: i32 = term.grid().display_offset() as i32;
    let viewport_start: i32 = -offset;
    let viewport_end: i32 = term.bottommost_line().0 - offset;
    let mut start: Point = term.line_search_left(Point { line: Line(viewport_start), column: Column(0) });
    let mut end: Point = term.line_search_right(Point { line: Line(viewport_end), column: Column(0) });
    if start.line.0 < viewport_start - MAX_SEARCH_LINES as i32 {
        start = Point { line: Line(viewport_start - MAX_SEARCH_LINES as i32), column: start.column };
    }
    if end.line.0 > viewport_end + MAX_SEARCH_LINES as i32 {
        end = Point { line: Line(viewport_end + MAX_SEARCH_LINES as i32), column: end.column };
    }
    let all: Vec<Match> = term.regex_matches(search, start, end);
    let mut i: usize = 0;
    assert(all@.skip(0) =~= all@);
    while i < all.len() && all[i].end.line.0 < viewport_start
        invariant
            i <= all@.len(),
            skip_above(all@, viewport_start as int) == skip_above(all@.skip(i as int), viewport_start as int),
            forall|k: int| 0 <= k < all@.len() ==> match_on_grid(term@.grid, #[trigger] all@[k]),
        decreases all@.len() - i,
    {
        assert(all@.skip(i as int).drop_first() =~= all@.skip(i + 1));
        i += 1;
    }
    let ghost rest = all@.skip(i as int);
    assert(skip_above(all@, viewport_start as int) == rest);
    let mut found: Vec<Match> = Vec::new();
    let first: usize = i;
    while i < all.len() && all[i].start.line.0 <= viewport_end
        invariant
            first <= i <= all@.len(),
            rest == all@.skip(first as int),
            forall|k: int| 0 <= k < all@.len() ==> match_on_grid(term@.grid, #[trigger] all@[k]),
            found@ == all@.subrange(first as int, i as int),
            take_through(rest, viewport_end as int) == found@ + take_through(
                all@.skip(i as int),
                viewport_end as int,
            ),
        decreases all@.len() - i,
    {
        let ghost tail = all@.skip(i as int);
        assert(tail.drop_first() =~= all@.skip(i + 1));
        assert(found@ + (seq![tail[0]] + take_through(all@.skip(i + 1), viewport_end as int))
            =~= found@.push(all@[i as int]) + take_through(all@.skip(i + 1), viewport_end as int));
        found.push(all[i]);
        i += 1;
        assert(found@ =~= all@.subrange(first as int, i as int));
    }
    assert(found@ + Seq::<Match>::empty() =~= found@);
    assert forall|k: int| 0 <= k < found@.len() implies match_on_grid(
        term@.grid,
        #[trigger] found@[k],
    ) by {
        assert(found@[k] == all@[first + k]);
    }
    found
}

/// Whether a hyperlink like `link` is among `known`.
fn knows(known: &Vec<Hyperlink>, link: &Hyperlink) -> (r: bool)
    ensures
        r == is_known(known@, *link),
{
    let mut i: usize = 0;
    while i < known.len()
        invariant
            i <= known@.len(),
            forall|k: int| 0 <= k < i ==> !(#[trigger] known@[k]).same(*link),
        decreases known@.len() - i,
    {
        if known[i].is_same(link) {
            return true;
        }
        i += 1;
    }
    false
}

/// The runs of cells on the viewport that carry one hyperlink, for each
/// hyperlink the first run only.
pub fn visible_unique_hyperlinks_iter(term: &Term) -> (found: Vec<Match>)
    requires
        term.wf(),
    ensures
        found@ == term@.visible_hyperlinks(),
        forall|i: int| 0 <= i < found@.len() ==> match_on_grid(term@.grid, #[trigger] found@[i]),
{
    proof {
        term.lemma_wf();
    }
    let offset: i32 = term.grid().display_offset() as i32;
    let first: Point = Point { line: Line(-offset), column: Column(0) };
    let last: Point = Point {
        line: Line(term.bottommost_line().0 - offset),
        column: term.last_column(),
    };
    let columns: usize = term.grid().columns();
    let mut known: Vec<Hyperlink> = Vec::new();
    let mut open: Option<(Hyperlink, Match)> = None;
    let mut found: Vec<Match> = Vec::new();
    let mut cur: Point = first;
    loop
        invariant
            term.wf(),
            term@.wf(),
            columns == term@.grid.columns,
            term@.grid.has_point(cur),
            term@.grid.has_point(last),
            !last.spec_precedes(cur),
            term@.visible_hyperlinks() == term@.link_scan_from(
                cur,
                last,
                LinkScan { known: known@, open, found: found@ },
            ).finished(),
            forall|i: int| 0 <= i < found@.len() ==> match_on_grid(term@.grid, #[trigger] found@[i]),
            open matches Some(run) ==> match_on_grid(term@.grid, run.1) && run.1.end.spec_precedes(
                cur,
            ),
        decreases last.line.0 - cur.line.0, columns - cur.column.0,
    {
        let ghost scan = LinkScan { known: known@, open, found: found@ };
        let link: Option<&Hyperlink> = term.grid().cell(cur).hyperlink();
        let goes_on: bool = match (&open, link) {
            (Some(run), Some(l)) => l.is_same(&run.0),
            _ => false,
        };
        if goes_on {
            match open {
                Some(run) => {
                    open = Some((run.0, Match { start: run.1.start, end: cur }));
                },
                None => {},
            }
        } else {
            match open {
                Some(run) => {
                    found.push(run.1);
                },
                None => {},
            }
            open = None;
            match link {
                Some(l) => {
                    if !knows(&known, l) {
                        let copy = l.duplicate();
                        known.push(l.duplicate());
                        open = Some((copy, Match { start: cur, end: cur }));
                    }
                },
                None => {},
            }
        }
        assert((LinkScan { known: known@, open, found: found@ }) == scan.step(
            cur,
            term@.grid.cell(cur).spec_hyperlink(),
        ));
        let at_end: bool = cur.line.0 == last.line.0 && cur.column.0 == last.column.0;
        if at_end {
            match open {
                Some(run) => {
                    found.push(run.1);
                },
                None => {},
            }
            return found;
        }
        match term.grid().next_point(cur) {
            Some(next) => {
                cur = next;
            },
            None => {
                return found;
            },
        }
    }
}

/// Where the scan for brackets stops, and the character it has read last.
fn scan_brackets(term: &Term, start: Point, end: Point) -> (stop: (Point, char))
    requires
        term.wf(),
        term@.grid.has_point(start),
        term@.grid.has_point(end),
        !end.spec_precedes(start),
    ensures
        stop == term@.bracket_scan(start, end, 0, 0),
        term@.grid.has_point(stop.0),
        !end.spec_precedes(stop.0),
{
    proof {
        term.lemma_wf();
    }
    let columns: usize = term.grid().columns();
    let mut cur: Point = start;
    let mut parens: u64 = 0;
    let mut brackets: u64 = 0;
    loop
        invariant
            term.wf(),
            term@.wf(),
            columns == term@.grid.columns,
            term@.grid.has_point(cur),
            term@.grid.has_point(end),
            !end.spec_precedes(cur),
            term@.bracket_scan(start, end, 0, 0) == term@.bracket_scan(cur, end, parens, brackets),
        decreases end.line.0 - cur.line.0, columns - cur.column.0,
    {
        let c: char = term.grid().cell(cur).c;
        if (c == ')' && parens == 0) || (c == ']' && brackets == 0) {
            return match term.grid().prev_point(cur) {
                Some(prev) => (prev, c),
                None => (cur, c),
            };
        }
        if c == '(' {
            parens = parens.saturating_add(1);
        } else if c == ')' {
            parens = parens - 1;
        } else if c == '[' {
            brackets = brackets.saturating_add(1);
        } else if c == ']' {
            brackets = brackets - 1;
        }
        if cur.line.0 == end.line.0 && cur.column.0 == end.column.0 {
            return (cur, c);
        }
        match term.grid().next_point(cur) {
            Some(next) => {
                cur = next;
            },
            None => {
                return (cur, c);
            },
        }
    }
}

/// The cell at which a match that starts at `start` ends, once the
/// delimiters at its end are taken off, going back from `from`, whose
/// character is taken to be `read`.
fn trim_trailing_delimiters(term: &Term, from: Point, read: char, start: Point) -> (end: Point)
    requires
        term.wf(),
        term@.grid.has_point(from),
        term@.grid.has_point(start),
        !from.spec_precedes(start),
    ensures
        end == term@.trim_delimiters(from, read, start),
        term@.grid.has_point(end),
        !end.spec_precedes(start),
        !from.spec_precedes(end),
{
    proof {
        term.lemma_wf();
    }
    let columns: usize = term.grid().columns();
    let mut cur: Point = from;
    let mut c: char = read;
    while !(cur.line.0 == start.line.0 && cur.column.0 == start.column.0) && is_delimiter_char(c)
        invariant
            term.wf(),
            term@.wf(),
            columns == term@.grid.columns,
            term@.grid.has_point(cur),
            term@.grid.has_point(start),
            !cur.spec_precedes(start),
            !from.spec_precedes(cur),
            term@.trim_delimiters(from, read, start) == term@.trim_delimiters(cur, c, start),
        decreases cur.line.0 - start.line.0, cur.column.0,
    {
        match term.grid().prev_point(cur) {
            Some(prev) => {
                cur = prev;
                c = term.grid().cell(cur).c;
            },
            None => {
                return cur;
            },
        }
    }
    cur
}

/// The match `regex_match` cut at its end: before a closing bracket that
/// closes nothing within the match, else before the delimiters at its end.
/// `None` where nothing is left.
pub fn hint_post_processing(term: &Term, regex_match: &Match) -> (cut: Option<Match>)
    requires
        term.wf(),
        term@.grid.has_point(regex_match.start),
        term@.grid.has_point(regex_match.end),
        !regex_match.end.spec_precedes(regex_match.start),
    ensures
        cut == term@.post_processed(*regex_match),
        cut matches Some(m) ==> {
            &&& m.start == regex_match.start
            &&& term@.grid.has_point(m.end)
            &&& !m.end.spec_precedes(m.start)
            &&& !regex_match.end.spec_precedes(m.end)
        },
{
    let start: Point = regex_match.start;
    let stop = scan_brackets(term, start, regex_match.end);
    if stop.0.precedes(&start) {
        return None;
    }
    let end: Point = trim_trailing_delimiters(term, stop.0, stop.1, start);
    Some(Match { start, end })
}

/// Whether `c` is taken off the end of a match.
fn is_delimiter_char(c: char) -> (r: bool)
    ensures
        r == is_delimiter(c),
{
    c == '.' || c == ',' || c == ':' || c == ';' || c == '?' || c == '!' || c == '(' || c == '['
        || c == '\''
}

/// The matches that are left of one match after post-processing, found
/// one after the other.
///
/// Where the cut at the end of a match leaves text behind it, that text is
/// searched for further matches, which are cut in turn.
#[derive(Debug, Clone, Copy, PartialEq, Eq, Structural)]
pub struct HintPostProcessor {
    /// The match that comes next.
    pub next_match: Option<Match>,
    /// Where the search goes on; `None` behind the grid's last cell.
    pub start: Option<Point>,
    /// The last cell of the match that is processed.
    pub end: Point,
}

impl TermView {
    /// Whether the search for a match behind `from` may go on with `next`:
    /// it starts behind `from`, not behind `end`.
    pub open spec fn search_advances(self, from: Point, next: Match, end: Point) -> bool {
        from.spec_precedes(next.start) && next.start.column.0 < self.grid.columns
            && !end.spec_precedes(next.start)
    }

    /// The first match that post-processing leaves of `rm` or of the
    /// matches behind its start, up to `end`, and where the search goes on
    /// after it.
    pub open spec fn processed_from(self, pattern: Seq<char>, rm: Match, end: Point) -> (
        Option<Match>,
        Option<Point>,
    )
        decreases end.line.0 - rm.start.line.0, self.grid.columns - rm.start.column.0,
        when self.search_range(rm.start, end)
    {
        match self.post_processed(rm) {
            Some(m) => (Some(m), self.advance(m.end)),
            None => match self.advance(rm.start) {
                None => (None, None),
                Some(s) => if end.spec_precedes(s) {
                    (None, Some(s))
                } else {
                    match self.regex_search_right(pattern, s, end) {
                        Some(next) => if self.search_advances(rm.start, next, end) {
                            self.processed_from(pattern, next, end)
                        } else {
                            (None, Some(s))
                        },
                        None => (None, Some(s)),
                    }
                },
            },
        }
    }

    /// The processor for the match `rm`.
    pub open spec fn processor_for(self, pattern: Seq<char>, rm: Match) -> HintPostProcessor {
        let first = self.processed_from(pattern, rm, rm.end);
        HintPostProcessor { next_match: first.0, start: first.1, end: rm.end }
    }

    /// The match that the processor gives next, and the processor after it.
    pub open spec fn processor_next(self, pattern: Seq<char>, state: HintPostProcessor) -> (
        Option<Match>,
        HintPostProcessor,
    ) {
        match state.next_match {
            None => (None, state),
            Some(m) => {
                let idle = HintPostProcessor {
                    next_match: None,
                    start: state.start,
                    end: state.end,
                };
                let after = match state.start {
                    Some(s) => if !state.end.spec_precedes(s) {
                        match self.regex_search_right(pattern, s, state.end) {
                            Some(rm) => {
                                let found = self.processed_from(pattern, rm, state.end);
                                HintPostProcessor {
                                    next_match: found.0,
                                    start: found.1,
                                    end: state.end,
                                }
                            },
                            None => idle,
                        }
                    } else {
                        idle
                    },
                    None => idle,
                };
                (Some(m), after)
            },
        }
    }

    /// Lines that the processor has left to search.
    pub open spec fn lines_left(self, state: HintPostProcessor) -> int {
        match state.start {
            Some(s) => if state.end.spec_precedes(s) {
                0
            } else {
                state.end.line.0 - s.line.0 + 1
            },
            None => 0,
        }
    }

    /// Columns that the processor has left to search on its line.
    pub open spec fn columns_left(self, state: HintPostProcessor) -> int {
        match state.start {
            Some(s) => if s.column.0 < self.grid.columns {
                self.grid.columns - s.column.0
            } else {
                0
            },
            None => 0,
        }
    }

    /// Whether the processor has moved on from `state` to `after`.
    pub open spec fn moved_on(self, state: HintPostProcessor, after: HintPostProcessor) -> bool {
        match state.start {
            Some(s) => s.column.0 < self.grid.columns && !state.end.spec_precedes(s) && (match after.start {
                Some(t) => s.spec_precedes(t) && t.column.0 < self.grid.columns,
                None => true,
            }),
            None => false,
        }
    }

    /// All matches that the processor gives from `state` on.
    pub open spec fn collected(self, pattern: Seq<char>, state: HintPostProcessor) -> Seq<Match>
        decreases self.lines_left(state), self.columns_left(state),
    {
        match state.next_match {
            None => Seq::empty(),
            Some(m) => {
                let after = self.processor_next(pattern, state).1;
                if after.next_match is Some && after.end == state.end && self.moved_on(state, after) {
                    seq![m] + self.collected(pattern, after)
                } else {
                    seq![m]
                }
            },
        }
    }

    /// What post-processing leaves of the matches `matches`, in their
    /// order.
    pub open spec fn post_processed_all(self, pattern: Seq<char>, matches: Seq<Match>) -> Seq<
        Match,
    >
        decreases matches.len(),
    {
        if matches.len() == 0 {
            Seq::empty()
        } else {
            self.post_processed_all(pattern, matches.drop_last()) + self.collected(
                pattern,
                self.processor_for(pattern, matches.last()),
            )
        }
    }
}

impl HintPostProcessor {
    /// Whether the processor's points are cells of `term`.
    pub open spec fn fits(self, term: TermView) -> bool {
        &&& term.grid.has_point(self.end)
        &&& self.start matches Some(s) ==> term.grid.has_point(s)
        &&& self.next_match matches Some(m) ==> match_on_grid(term.grid, m)
    }

    /// The processor for the match `regex_match`.
    pub fn new(term: &Term, search: &RegexSearch, regex_match: Match) -> (processor:
        HintPostProcessor)
        requires
            term.wf(),
            match_on_grid(term@.grid, regex_match),
        ensures
            processor == term@.processor_for(search@, regex_match),
            processor.fits(term@),
    {
        let mut processor = HintPostProcessor {
            next_match: None,
            start: Some(regex_match.start),
            end: regex_match.end,
        };
        processor.next_processed_match(term, search, regex_match);
        processor
    }

    /// Goes through `regex_match` and the matches behind its start until
    /// post-processing leaves something of one.
    pub fn next_processed_match(&mut self, term: &Term, search: &RegexSearch, regex_match: Match)
        requires
            term.wf(),
            term@.grid.has_point(old(self).end),
            match_on_grid(term@.grid, regex_match),
            !old(self).end.spec_precedes(regex_match.end),
        ensures
            final(self).end == old(self).end,
            (final(self).next_match, final(self).start) == term@.processed_from(
                search@,
                regex_match,
                old(self).end,
            ),
            final(self).fits(term@),
    {
        proof {
            term.lemma_wf();
        }
        let columns: usize = term.grid().columns();
        let end: Point = self.end;
        let mut rm: Match = regex_match;
        self.next_match = None;
        loop
            invariant
                term.wf(),
                term@.wf(),
                columns == term@.grid.columns,
                self.end == end,
                end == old(self).end,
                term@.grid.has_point(end),
                match_on_grid(term@.grid, rm),
                !end.spec_precedes(rm.end),
                self.next_match is None,
                term@.processed_from(search@, regex_match, end) == term@.processed_from(
                    search@,
                    rm,
                    end,
                ),
            decreases end.line.0 - rm.start.line.0, columns - rm.start.column.0,
        {
            match hint_post_processing(term, &rm) {
                Some(m) => {
                    self.start = term.grid().next_point(m.end);
                    self.next_match = Some(m);
                    return ;
                },
                None => {},
            }
            let next_start: Option<Point> = term.grid().next_point(rm.start);
            self.start = next_start;
            match next_start {
                None => {
                    return ;
                },
                Some(s) => {
                    if end.precedes(&s) {
                        return ;
                    }
                    match term.regex_search_right(search, s, end) {
                        Some(next) => {
                            rm = next;
                        },
                        None => {
                            return ;
                        },
                    }
                },
            }
        }
    }

    /// The next match, if there is one. The processor goes on to the one
    /// after it.
    pub fn next(&mut self, term: &Term, search: &RegexSearch) -> (found: Option<Match>)
        requires
            term.wf(),
            old(self).fits(term@),
        ensures
            (found, *final(self)) == term@.processor_next(search@, *old(self)),
            final(self).fits(term@),
            found matches Some(m) ==> match_on_grid(term@.grid, m),
    {
        let next_match: Match = match self.next_match {
            Some(m) => m,
            None => {
                return None;
            },
        };
        self.next_match = None;
        match self.start {
            Some(s) => {
                if !self.end.precedes(&s) {
                    match term.regex_search_right(search, s, self.end) {
                        Some(rm) => {
                            self.next_processed_match(term, search, rm);
                        },
                        None => {},
                    }
                }
            },
            None => {},
        }
        Some(next_match)
    }

    /// All matches that the processor gives.
    pub fn collect(self, term: &Term, search: &RegexSearch) -> (found: Vec<Match>)
        requires
            term.wf(),
            self.fits(term@),
        ensures
            found@ == term@.collected(search@, self),
            forall|i: int| 0 <= i < found@.len() ==> match_on_grid(term@.grid, #[trigger] found@[i]),
    {
        proof {
            term.lemma_wf();
        }
        let columns: usize = term.grid().columns();
        let mut state: HintPostProcessor = self;
        let mut found: Vec<Match> = Vec::new();
        loop
            invariant
                term.wf(),
                term@.wf(),
                columns == term@.grid.columns,
                state.fits(term@),
                term@.collected(search@, self) == found@ + term@.collected(search@, state),
                forall|i: int|
                    0 <= i < found@.len() ==> match_on_grid(term@.grid, #[trigger] found@[i]),
            decreases term@.lines_left(state), term@.columns_left(state),
        {
            let before: HintPostProcessor = state;
            let ghost rest = term@.collected(search@, before);
            match state.next(term, search) {
                None => {
                    assert(found@ + rest =~= found@);
                    return found;
                },
                Some(m) => {
                    let ghost so_far = found@;
                    found.push(m);
                    let moved: bool = match before.start {
                        Some(s) => s.column.0 < columns && !before.end.precedes(&s) && (match state.start {
                            Some(t) => s.precedes(&t) && t.column.0 < columns,
                            None => true,
                        }),
                        None => false,
                    };
                    let goes_on: bool = state.next_match.is_some() && state.end.line.0
                        == before.end.line.0 && state.end.column.0 == before.end.column.0 && moved;
                    if !goes_on {
                        assert(so_far + seq![m] =~= found@);
                        return found;
                    }
                    assert(so_far + (seq![m] + term@.collected(search@, state)) =~= found@
                        + term@.collected(search@, state));
                },
            }
        }
    }
}

/// What a [`Hint`] says, with the pattern of its regular expression where
/// that can be compiled.
pub struct HintView {
    pub hyperlinks: bool,
    pub regex: Option<Seq<char>>,
    pub post_processing: bool,
    pub persist: bool,
    pub action: HintActionView,
    /// Whether the hint is highlighted under the mouse, where that is said.
    pub mouse: Option<bool>,
}

/// What a hint in use says.
pub open spec fn hint_view(hint: Hint) -> HintView {
    HintView {
        hyperlinks: hint.content.hyperlinks,
        regex: match hint.content.regex {
            Some(regex) => if regex.usable() {
                Some(regex.pattern())
            } else {
                None
            },
            None => None,
        },
        post_processing: hint.post_processing,
        persist: hint.persist,
        action: hint.action@,
        mouse: match hint.mouse {
            Some(mouse) => Some(mouse.enabled),
            None => None,
        },
    }
}

/// The mathematical model of a [`HintState`].
pub struct HintStateView {
    /// The hint in use.
    pub hint: Option<HintView>,
    /// The characters of the labels.
    pub alphabet: Seq<char>,
    /// The matches on the viewport.
    pub matches: Seq<Match>,
    /// For each match, what is left to type of its label; empty where the
    /// keys typed do not start its label.
    pub labels: Seq<Seq<char>>,
    /// The keys typed so far.
    pub keys: Seq<char>,
}

/// A hint that was chosen.
#[derive(Debug)]
pub struct HintMatch {
    action: HintAction,
    bounds: Match,
    hyperlink: Option<Hyperlink>,
}

/// What a [`HintMatch`] holds.
pub struct HintMatchView {
    pub action: HintActionView,
    pub bounds: Match,
    /// Identity and target of the hyperlink at the start of the match.
    pub hyperlink: Option<(Seq<char>, Seq<char>)>,
}

/// Identity and target of `link`.
pub open spec fn link_view(link: Option<Hyperlink>) -> Option<(Seq<char>, Seq<char>)> {
    match link {
        Some(l) => Some((l.id@, l.uri@)),
        None => None,
    }
}

impl View for HintMatch {
    type V = HintMatchView;

    closed spec fn view(&self) -> HintMatchView {
        HintMatchView {
            action: self.action@,
            bounds: self.bounds,
            hyperlink: link_view(self.hyperlink),
        }
    }
}

impl HintMatch {
    /// What is done with the text.
    pub fn action(&self) -> (action: &HintAction)
        ensures
            action@ == self@.action,
    {
        &self.action
    }

    /// The cells of the hint.
    pub fn bounds(&self) -> (bounds: &Match)
        ensures
            *bounds == self@.bounds,
    {
        &self.bounds
    }

    /// The hyperlink at the start of the hint.
    pub fn hyperlink(&self) -> (link: Option<&Hyperlink>)
        ensures
            match link {
                Some(l) => self@.hyperlink == Some((l.id@, l.uri@)),
                None => self@.hyperlink is None,
            },
    {
        self.hyperlink.as_ref()
    }
}

/// What is left to type of `label` after `keys`; empty where `keys` do not
/// start it.
pub open spec fn left_to_type(label: Seq<char>, keys: Seq<char>) -> Seq<char> {
    if label.len() >= keys.len() && label.subrange(0, keys.len() as int) == keys {
        label.subrange(keys.len() as int, label.len() as int)
    } else {
        Seq::empty()
    }
}

/// The labels of `count` matches over `alphabet`, after `keys` were typed.
/// The last match has the first label.
pub open spec fn labels_for(alphabet: Seq<char>, count: nat, keys: Seq<char>) -> Seq<Seq<char>> {
    Seq::new(
        count,
        |i: int|
            left_to_type(
                nth_label(
                    alphabet,
                    split_point_of(alphabet.len(), HINT_SPLIT_PERCENTAGE as nat),
                    (count - 1 - i) as nat,
                ),
                keys,
            ),
    )
}

/// The place of the last label that starts with `c`.
pub open spec fn last_label_with(labels: Seq<Seq<char>>, c: char) -> Option<int>
    decreases labels.len(),
{
    if labels.len() == 0 {
        None
    } else if labels.last().len() > 0 && labels.last()[0] == c {
        Some(labels.len() - 1)
    } else {
        last_label_with(labels.drop_last(), c)
    }
}

impl TermView {
    /// The matches of `hint` on the viewport, before they are sorted: the
    /// hyperlinks, then the matches of the regular expression.
    pub open spec fn hint_matches(self, hint: HintView) -> Seq<Match> {
        (if hint.hyperlinks {
            self.visible_hyperlinks()
        } else {
            Seq::empty()
        }) + (match hint.regex {
            Some(pattern) => if hint.post_processing {
                self.post_processed_all(pattern, self.visible_matches(pattern))
            } else {
                self.visible_matches(pattern)
            },
            None => Seq::empty(),
        })
    }
}

impl HintStateView {
    /// The state without a hint in use.
    pub open spec fn stopped(self) -> HintStateView {
        HintStateView {
            hint: None,
            alphabet: self.alphabet,
            matches: Seq::empty(),
            labels: Seq::empty(),
            keys: Seq::empty(),
        }
    }

    /// The state with the matches and labels for the terminal `term`. A hint
    /// without a match on the viewport goes out of use.
    pub open spec fn updated(self, term: TermView) -> HintStateView {
        match self.hint {
            None => self,
            Some(hint) => {
                let raw = term.hint_matches(hint);
                if raw.len() == 0 {
                    self.stopped()
                } else {
                    let matches = sorted_dedup(raw);
                    HintStateView {
                        hint: self.hint,
                        alphabet: self.alphabet,
                        matches,
                        labels: labels_for(self.alphabet, matches.len(), self.keys),
                        keys: self.keys,
                    }
                }
            },
        }
    }

    /// The state after the key `c` and before the matches are found anew:
    /// backspace takes a key back, escape and interrupt end the choice.
    pub open spec fn after_key(self, c: char) -> HintStateView {
        if c == '\x08' || c == '\x1f' {
            HintStateView {
                keys: if self.keys.len() > 0 {
                    self.keys.drop_last()
                } else {
                    self.keys
                },
                ..self
            }
        } else if c == '\x1b' || c == '\x03' {
            self.stopped()
        } else {
            self
        }
    }

    /// The state after the choice by the key `c` among the labels, and the
    /// hint that was chosen: the last match whose label starts with `c` is
    /// chosen if `c` ends its label; else `c` is one more key typed.
    pub open spec fn chosen(self, term: TermView, c: char) -> (Option<HintMatchView>, HintStateView) {
        match self.hint {
            None => (None, self),
            Some(hint) => match last_label_with(self.labels, c) {
                None => (None, self),
                Some(index) => if self.labels[index].len() == 1 {
                    (
                        Some(
                            HintMatchView {
                                action: hint.action,
                                bounds: self.matches[index],
                                hyperlink: link_view(
                                    term.grid.cell(self.matches[index].start).spec_hyperlink(),
                                ),
                            },
                        ),
                        if hint.persist {
                            HintStateView { keys: Seq::empty(), ..self }
                        } else {
                            self.stopped()
                        },
                    )
                } else {
                    (None, HintStateView { keys: self.keys.push(c), ..self })
                },
            },
        }
    }

    /// The state after the key `c`, and the hint that was chosen.
    pub open spec fn after_input(self, term: TermView, c: char) -> (
        Option<HintMatchView>,
        HintStateView,
    ) {
        self.after_key(c).updated(term).chosen(term, c)
    }
}

/// The choice of a hint by the keyboard.
#[derive(Debug)]
pub struct HintState {
    hint: Option<Hint>,
    alphabet: String,
    matches: Vec<Match>,
    labels: Vec<Vec<char>>,
    keys: Vec<char>,
}

impl View for HintState {
    type V = HintStateView;

    closed spec fn view(&self) -> HintStateView {
        HintStateView {
            hint: match self.hint {
                Some(hint) => Some(hint_view(hint)),
                None => None,
            },
            alphabet: self.alphabet@,
            matches: self.matches@,
            labels: crate::text::line_views(self.labels@),
            keys: self.keys@,
        }
    }
}

/// What is left to type of `label` after `keys`.
fn rest_of_label(label: &Vec<char>, keys: &Vec<char>) -> (rest: Vec<char>)
    ensures
        rest@ == left_to_type(label@, keys@),
{
    let n: usize = keys.len();
    let mut rest: Vec<char> = Vec::new();
    if label.len() < n {
        return rest;
    }
    let mut i: usize = 0;
    while i < n
        invariant
            i <= n,
            n == keys@.len(),
            n <= label@.len(),
            rest@.len() == 0,
            label@.subrange(0, i as int) == keys@.subrange(0, i as int),
        decreases n - i,
    {
        if label[i] != keys[i] {
            assert(label@.subrange(0, n as int)[i as int] != keys@[i as int]);
            return rest;
        }
        i += 1;
        assert(label@.subrange(0, i as int) =~= label@.subrange(0, i - 1).push(label@[i - 1]));
        assert(keys@.subrange(0, i as int) =~= keys@.subrange(0, i - 1).push(keys@[i - 1]));
    }
    assert(keys@.subrange(0, n as int) =~= keys@);
    let mut k: usize = n;
    while k < label.len()
        invariant
            n <= k <= label@.len(),
            rest@ == label@.subrange(n as int, k as int),
        decreases label@.len() - k,
    {
        rest.push(label[k]);
        k += 1;
        assert(label@.subrange(n as int, k as int) =~= label@.subrange(n as int, k - 1).push(
            label@[k - 1],
        ));
    }
    rest
}

impl HintState {
    /// What holds of every state: the alphabet has two characters or more,
    /// and every match has its label.
    pub closed spec fn wf(&self) -> bool {
        self.alphabet@.len() >= 2 && self.matches@.len() == self.labels@.len()
    }

    /// A state without a hint in use, whose labels are made of `alphabet`.
    pub fn new(alphabet: String) -> (state: HintState)
        requires
            alphabet@.len() >= 2,
        ensures
            state.wf(),
            state@ == (HintStateView {
                hint: None,
                alphabet: alphabet@,
                matches: Seq::empty(),
                labels: Seq::empty(),
                keys: Seq::empty(),
            }),
    {
        let state = HintState {
            hint: None,
            alphabet,
            matches: Vec::new(),
            labels: Vec::new(),
            keys: Vec::new(),
        };
        assert(crate::text::line_views(state.labels@) =~= Seq::<Seq<char>>::empty());
        state
    }

    /// Whether a hint is in use.
    pub fn active(&self) -> (r: bool)
        ensures
            r == self@.hint is Some,
    {
        self.hint.is_some()
    }

    /// Takes `hint` in use.
    pub fn start(&mut self, hint: Hint)
        requires
            old(self).wf(),
        ensures
            final(self).wf(),
            final(self)@ == (HintStateView { hint: Some(hint_view(hint)), ..old(self)@ }),
    {
        self.hint = Some(hint);
    }

    /// Ends the choice: no hint is in use, and matches, labels and keys are
    /// gone.
    pub fn stop(&mut self)
        requires
            old(self).wf(),
        ensures
            final(self).wf(),
            final(self)@ == old(self)@.stopped(),
    {
        self.matches.clear();
        self.labels.clear();
        self.keys.clear();
        self.hint = None;
        assert(crate::text::line_views(self.labels@) =~= Seq::<Seq<char>>::empty());
    }

    /// The matches of `hint` on the viewport, before they are sorted.
    fn find_matches(term: &Term, hint: &mut Hint) -> (raw: Vec<Match>)
        requires
            term.wf(),
        ensures
            raw@ == term@.hint_matches(hint_view(*old(hint))),
            hint_view(*final(hint)) == hint_view(*old(hint)),
            forall|i: int| 0 <= i < raw@.len() ==> match_on_grid(term@.grid, #[trigger] raw@[i]),
    {
        let mut raw: Vec<Match> = Vec::new();
        if hint.content.hyperlinks {
            raw = visible_unique_hyperlinks_iter(term);
        }
        let ghost links = raw@;
        let mut taken: Option<crate::config::LazyRegex> = None;
        core::mem::swap(&mut taken, &mut hint.content.regex);
        match taken {
            Some(mut lazy) => {
                lazy.compile();
                match lazy.compiled() {
                    Some(search) => {
                        let visible: Vec<Match> = visible_regex_match_iter(term, search);
                        if hint.post_processing {
                            let mut i: usize = 0;
                            while i < visible.len()
                                invariant
                                    term.wf(),
                                    i <= visible@.len(),
                                    forall|k: int|
                                        0 <= k < visible@.len() ==> match_on_grid(
                                            term@.grid,
                                            #[trigger] visible@[k],
                                        ),
                                    raw@ == links + term@.post_processed_all(
                                        search@,
                                        visible@.take(i as int),
                                    ),
                                    forall|k: int|
                                        0 <= k < raw@.len() ==> match_on_grid(
                                            term@.grid,
                                            #[trigger] raw@[k],
                                        ),
                                decreases visible@.len() - i,
                            {
                                let processor = HintPostProcessor::new(term, search, visible[i]);
                                let mut left: Vec<Match> = processor.collect(term, search);
                                let ghost added = left@;
                                raw.append(&mut left);
                                i += 1;
                                proof {
                                    assert(visible@.take(i as int).drop_last() =~= visible@.take(
                                        i - 1,
                                    ));
                                    assert(visible@.take(i as int).last() == visible@[i - 1]);
                                    assert(raw@ =~= links + (term@.post_processed_all(
                                        search@,
                                        visible@.take(i - 1),
                                    ) + added));
                                }
                            }
                            assert(visible@.take(visible@.len() as int) =~= visible@);
                        } else {
                            let mut visible = visible;
                            raw.append(&mut visible);
                        }
                    },
                    None => {
                        assert(raw@ =~= links + Seq::<Match>::empty());
                    },
                }
                hint.content.regex = Some(lazy);
            },
            None => {
                assert(raw@ =~= links + Seq::<Match>::empty());
            },
        }
        raw
    }

    /// Finds the matches on the viewport anew and gives each its label. A
    /// hint without a match goes out of use.
    pub fn update_matches(&mut self, term: &Term)
        requires
            old(self).wf(),
            term.wf(),
        ensures
            final(self).wf(),
            final(self)@ == old(self)@.updated(term@),
            final(self)@.hint is Some ==> forall|i: int|
                0 <= i < final(self)@.matches.len() ==> match_on_grid(
                    term@.grid,
                    #[trigger] final(self)@.matches[i],
                ),
    {
        let mut taken: Option<Hint> = None;
        core::mem::swap(&mut taken, &mut self.hint);
        let mut hint: Hint = match taken {
            Some(hint) => hint,
            None => {
                return ;
            },
        };
        let raw: Vec<Match> = Self::find_matches(term, &mut hint);
        if raw.len() == 0 {
            self.stop();
            return ;
        }
        self.hint = Some(hint);
        self.matches = sort_dedup(&raw);
        let ghost sorted = self.matches@;
        assert forall|i: int| 0 <= i < sorted.len() implies match_on_grid(
            term@.grid,
            #[trigger] sorted[i],
        ) by {
            assert(raw@.contains(sorted[i]));
        }
        let count: usize = self.matches.len();
        let mut generator = HintLabels::new(self.alphabet.as_str(), HINT_SPLIT_PERCENTAGE);
        let ghost split = split_point_of(self.alphabet@.len(), HINT_SPLIT_PERCENTAGE as nat);
        // The labels in the order in which they are made: the first is the
        // label of the last match.
        let mut made: Vec<Vec<char>> = Vec::new();
        let mut k: usize = 0;
        while k < count
            invariant
                k <= count,
                made@.len() == k,
                generator@.wf(),
                generator@.alphabet == self.alphabet@,
                generator@.split_point == split,
                generator@.indices == nth_indices(k as nat, split, self.alphabet@.len()),
                forall|j: int|
                    0 <= j < k ==> (#[trigger] made@[j])@ == left_to_type(
                        nth_label(self.alphabet@, split, j as nat),
                        self.keys@,
                    ),
            decreases count - k,
        {
            let label: Vec<char> = generator.next();
            made.push(rest_of_label(&label, &self.keys));
            k += 1;
        }
        let mut labels: Vec<Vec<char>> = Vec::new();
        while made.len() > 0
            invariant
                made@.len() + labels@.len() == count,
                forall|j: int|
                    0 <= j < made@.len() ==> (#[trigger] made@[j])@ == left_to_type(
                        nth_label(self.alphabet@, split, j as nat),
                        self.keys@,
                    ),
                forall|i: int|
                    0 <= i < labels@.len() ==> (#[trigger] labels@[i])@ == left_to_type(
                        nth_label(self.alphabet@, split, (count - 1 - i) as nat),
                        self.keys@,
                    ),
            decreases made@.len(),
        {
            match made.pop() {
                Some(label) => {
                    labels.push(label);
                },
                None => {},
            }
        }
        self.labels = labels;
        assert(crate::text::line_views(self.labels@) =~= labels_for(
            self.alphabet@,
            count as nat,
            self.keys@,
        ));
    }

    /// The place of the last label that starts with `c`.
    fn find_label(&self, c: char) -> (found: Option<usize>)
        ensures
            match found {
                Some(i) => last_label_with(self@.labels, c) == Some(i as int) && i
                    < self@.labels.len(),
                None => last_label_with(self@.labels, c) is None,
            },
    {
        let ghost views = crate::text::line_views(self.labels@);
        let mut end: usize = self.labels.len();
        assert(views.take(end as int) =~= views);
        while end > 0
            invariant
                end <= self.labels@.len(),
                views == crate::text::line_views(self.labels@),
                last_label_with(views, c) == last_label_with(views.take(end as int), c),
            decreases end,
        {
            assert(views.take(end as int).last() == self.labels@[end - 1]@);
            if self.labels[end - 1].len() > 0 && self.labels[end - 1][0] == c {
                return Some(end - 1);
            }
            assert(views.take(end as int).drop_last() =~= views.take(end - 1));
            end -= 1;
        }
        None
    }

    /// Takes the key `c`: finds the matches anew, and chooses the last match
    /// whose label starts with `c` if `c` ends that label. Backspace takes a
    /// key back; escape and interrupt end the choice.
    pub fn keyboard_input(&mut self, term: &Term, c: char) -> (found: Option<HintMatch>)
        requires
            old(self).wf(),
            term.wf(),
        ensures
            final(self).wf(),
            match found {
                Some(m) => old(self)@.after_input(term@, c) == (Some(m@), final(self)@),
                None => old(self)@.after_input(term@, c) == (None::<HintMatchView>, final(self)@),
            },
    {
        if c == '\x08' || c == '\x1f' {
            self.keys.pop();
        } else if c == '\x1b' || c == '\x03' {
            self.stop();
        }
        assert(self@ == old(self)@.after_key(c));
        self.update_matches(term);
        let index: usize = match self.find_label(c) {
            Some(index) => index,
            None => {
                return None;
            },
        };
        let (action, persist): (HintAction, bool) = match &self.hint {
            Some(hint) => (hint.action.duplicate(), hint.persist),
            None => {
                return None;
            },
        };
        if self.labels[index].len() == 1 {
            let bounds: Match = self.matches[index];
            assert(match_on_grid(term@.grid, self@.matches[index as int]));
            if persist {
                self.keys.clear();
            } else {
                self.stop();
            }
            let hyperlink: Option<Hyperlink> = match term.grid().cell(bounds.start).hyperlink() {
                Some(link) => Some(link.duplicate()),
                None => None,
            };
            Some(HintMatch { action, bounds, hyperlink })
        } else {
            self.keys.push(c);
            None
        }
    }

    /// For each match, what is left to type of its label.
    pub fn labels(&self) -> (labels: &Vec<Vec<char>>)
        ensures
            crate::text::line_views(labels@) == self@.labels,
    {
        &self.labels
    }

    /// The matches on the viewport.
    pub fn matches(&self) -> (matches: &Vec<Match>)
        ensures
            matches@ == self@.matches,
    {
        &self.matches
    }
}

} // verus!
