//! The project: its patterns and their arrangement into a song.
//!
//! The arranger is a list of items, each a single pattern or a named group of patterns.
//! Playing the song walks the items in order: a single pattern plays as many times as its
//! repeat count says (at least once); a group plays its patterns in order, each as often
//! as its own repeat count says, and the whole group as often as the group's repeat count
//! says. The flattened list of pattern indices that results is the song's play order.
pub mod arrange;
pub mod channel;
pub mod envelope;
pub mod file;
pub mod mod_file;
pub mod xm;
pub mod pattern;
pub mod sample;

use vstd::prelude::*;

use crate::app::scale::ScaleIndex;
use crate::project::pattern::{Pattern, PatternColor};

verus! {

/// One entry of the arranger: a single pattern or a group of patterns.
#[derive(Debug, Clone)]
pub enum ArrangerItem {
    Single { pattern_idx: usize },
    Group {
        name: String,
        color: Option<PatternColor>,
        repeat: u16,
        pattern_indices: Vec<usize>,
        clone_id: Option<u64>,
        collapsed: bool,
    },
}

/// The pattern indices an item refers to, in order.
pub open spec fn item_indices(item: ArrangerItem) -> Seq<usize> {
    match item {
        ArrangerItem::Single { pattern_idx } => seq![pattern_idx],
        ArrangerItem::Group { pattern_indices, .. } => pattern_indices@,
    }
}

/// Every pattern index of the items is below `n`.
pub open spec fn refs_below(items: Seq<ArrangerItem>, n: nat) -> bool {
    forall|i: int, j: int|
        0 <= i < items.len() && 0 <= j < item_indices(items[i]).len()
            ==> #[trigger] item_indices(items[i])[j] < n
}

/// The items are the same: same kind, same name, color, repeat count, patterns,
/// clone id and collapsed state.
pub open spec fn same_item(a: ArrangerItem, b: ArrangerItem) -> bool {
    match (a, b) {
        (ArrangerItem::Single { pattern_idx: x }, ArrangerItem::Single { pattern_idx: y }) => x == y,
        (
            ArrangerItem::Group {
                name: n1,
                color: c1,
                repeat: r1,
                pattern_indices: p1,
                clone_id: i1,
                collapsed: k1,
            },
            ArrangerItem::Group {
                name: n2,
                color: c2,
                repeat: r2,
                pattern_indices: p2,
                clone_id: i2,
                collapsed: k2,
            },
        ) => n1@ == n2@ && c1 == c2 && r1 == r2 && p1@ == p2@ && i1 == i2 && k1 == k2,
        _ => false,
    }
}

/// How often a group plays: its repeat count, but at least once.
pub open spec fn group_plays(repeat: u16) -> nat {
    if repeat >= 1 {
        repeat as nat
    } else {
        1
    }
}

/// How often a pattern plays in a row: its repeat count, but at least once.
pub open spec fn pattern_plays(p: Pattern) -> nat {
    if p.repeat >= 1 {
        p.repeat as nat
    } else {
        1
    }
}

/// How often a pattern plays in a row, computed.
fn plays_of(p: &Pattern) -> (r: usize)
    ensures
        r == pattern_plays(*p),
        1 <= r <= 65535,
{
    if p.repeat >= 1 {
        p.repeat as usize
    } else {
        1
    }
}

/// A repetition is as long as the repeated sequence times the count.
pub proof fn lemma_repeat_len(s: Seq<usize>, n: nat)
    ensures
        repeat_seq(s, n).len() == n * s.len(),
    decreases n,
{
    if n > 0 {
        let m = (n - 1) as nat;
        lemma_repeat_len(s, m);
        assert(repeat_seq(s, n) == repeat_seq(s, m) + s);
        assert(m * s.len() + s.len() == n * s.len()) by (nonlinear_arith)
            requires m + 1 == n;
    } else {
        assert(n * s.len() == 0) by (nonlinear_arith)
            requires n == 0;
    }
}

/// Entry `j` of a repetition of `s` is entry `j mod |s|` of `s`.
pub proof fn lemma_repeat_index(s: Seq<usize>, n: nat, j: int)
    requires
        s.len() > 0,
        0 <= j < n * s.len(),
    ensures
        repeat_seq(s, n)[j] == s[j % (s.len() as int)],
    decreases n,
{
    let m = (n - 1) as nat;
    let l = s.len() as int;
    assert(n > 0) by (nonlinear_arith)
        requires 0 <= j < n * l, l > 0;
    lemma_repeat_len(s, m);
    assert(m * l + l == n * l) by (nonlinear_arith)
        requires m + 1 == n;
    if j < m * l {
        lemma_repeat_index(s, m, j);
    } else {
        assert(j % l == j - m * l) by (nonlinear_arith)
            requires m * l <= j < m * l + l, l > 0, m >= 0;
    }
}

/// `s` repeated `n` times.
pub open spec fn repeat_seq(s: Seq<usize>, n: nat) -> Seq<usize>
    decreases n,
{
    if n == 0 {
        Seq::empty()
    } else {
        repeat_seq(s, (n - 1) as nat) + s
    }
}

impl ArrangerItem {
    /// The pattern indices the item refers to, in order.
    pub fn pattern_indices(&self) -> (r: Vec<usize>)
        ensures
            r@ == item_indices(*self),
    {
        match self {
            ArrangerItem::Single { pattern_idx } => {
                let mut v = Vec::new();
                v.push(*pattern_idx);
                assert(v@ =~= seq![*pattern_idx]);
                v
            },
            ArrangerItem::Group { pattern_indices, .. } => {
                let r = pattern_indices.clone();
                assert(r@ =~= pattern_indices@);
                r
            },
        }
    }

    /// A copy of the item.
    pub fn duplicate(&self) -> (r: ArrangerItem)
        ensures
            same_item(r, *self),
    {
        match self {
            ArrangerItem::Single { pattern_idx } => ArrangerItem::Single { pattern_idx: *pattern_idx },
            ArrangerItem::Group { name, color, repeat, pattern_indices, clone_id, collapsed } => {
                let p = pattern_indices.clone();
                assert(p@ =~= pattern_indices@);
                ArrangerItem::Group {
                    name: name.clone(),
                    color: *color,
                    repeat: *repeat,
                    pattern_indices: p,
                    clone_id: *clone_id,
                    collapsed: *collapsed,
                }
            },
        }
    }
}

/// A song: its patterns, their arrangement, the tracks that play them, and the
/// editing settings that are saved with it (input step, scale and transposition).
/// The tracks' sound settings are of a type of the caller's choice.
#[derive(Debug, Clone)]
pub struct Project<T> {
    pub patterns: Vec<Pattern>,
    pub arranger: Vec<ArrangerItem>,
    pub current_item_idx: usize,
    pub current_sub_pattern_idx: usize,
    pub tracks: Vec<T>,
    pub step: usize,
    pub scale_index: ScaleIndex,
    pub transpose: i8,
    pub next_clone_id: u64,
}

impl<T> Project<T> {
    /// Every pattern index in the arranger names a pattern of the project.
    pub open spec fn indices_valid(self) -> bool {
        refs_below(self.arranger@, self.patterns@.len())
    }

    /// How often pattern `pi` plays in a row.
    pub open spec fn plays(self, pi: int) -> nat {
        pattern_plays(self.patterns@[pi])
    }

    /// One pass through a group's patterns, each repeated as often as it plays.
    pub open spec fn pass_of(self, indices: Seq<usize>) -> Seq<usize>
        decreases indices.len(),
    {
        if indices.len() == 0 {
            Seq::empty()
        } else {
            self.pass_of(indices.drop_last()) + Seq::new(
                self.plays(indices.last() as int),
                |j: int| indices.last(),
            )
        }
    }

    /// The stretch of the play order that an item contributes.
    pub open spec fn item_order(self, item: ArrangerItem) -> Seq<usize> {
        match item {
            ArrangerItem::Single { pattern_idx } => Seq::new(
                self.plays(pattern_idx as int),
                |j: int| pattern_idx,
            ),
            ArrangerItem::Group { repeat, pattern_indices, .. } => repeat_seq(
                self.pass_of(pattern_indices@),
                group_plays(repeat),
            ),
        }
    }

    /// The play order of the first `k` items.
    pub open spec fn order_upto(self, k: nat) -> Seq<usize>
        decreases k,
    {
        if k == 0 {
            Seq::empty()
        } else {
            self.order_upto((k - 1) as nat) + self.item_order(self.arranger@[k - 1])
        }
    }

    /// The play order of a list of items, with this project's patterns.
    pub open spec fn items_order(self, items: Seq<ArrangerItem>) -> Seq<usize>
        decreases items.len(),
    {
        if items.len() == 0 {
            Seq::empty()
        } else {
            self.items_order(items.drop_last()) + self.item_order(items.last())
        }
    }

    /// The song's play order: the pattern index of every pattern played, in order.
    pub open spec fn flat_order_spec(self) -> Seq<usize> {
        self.order_upto(self.arranger@.len())
    }

    /// Where item `i` starts in the play order.
    pub open spec fn item_start(self, i: int) -> nat {
        self.order_upto(i as nat).len()
    }

    /// Where the `s`-th pattern of a group starts within one pass of the group.
    pub open spec fn sub_start(self, indices: Seq<usize>, s: int) -> nat {
        self.pass_of(indices.take(s)).len()
    }

    /// `r` is the arranger position of entry `k` of the play order: `r.0` is the item
    /// that plays there, and, for a group, `r.1` is which of its patterns (0 for a single
    /// pattern). Beyond the end of the play order it is the last item (0 for an empty
    /// arranger) and 0.
    pub open spec fn locates(self, k: int, r: (usize, usize)) -> bool {
        if k < self.flat_order_spec().len() {
            &&& r.0 < self.arranger@.len()
            &&& self.item_start(r.0 as int) <= k < self.item_start(r.0 + 1)
            &&& match self.arranger@[r.0 as int] {
                ArrangerItem::Single { .. } => r.1 == 0,
                ArrangerItem::Group { pattern_indices, .. } => {
                    let off = (k - self.item_start(r.0 as int)) % (self.pass_of(
                        pattern_indices@,
                    ).len() as int);
                    &&& r.1 < pattern_indices@.len()
                    &&& self.sub_start(pattern_indices@, r.1 as int) <= off < self.sub_start(
                        pattern_indices@,
                        r.1 + 1,
                    )
                }
            }
        } else {
            r == (if self.arranger@.len() > 0 {
                (self.arranger@.len() - 1) as usize
            } else {
                0usize
            }, 0usize)
        }
    }

    /// The index of the pattern the editor shows for the current item: a single item's
    /// pattern, or a group's current sub-pattern (its last if the sub-index is too large).
    pub open spec fn current_pattern_idx_spec(self) -> usize {
        match self.arranger@[self.current_item_idx as int] {
            ArrangerItem::Single { pattern_idx } => pattern_idx,
            ArrangerItem::Group { pattern_indices, .. } => {
                let sub = if self.current_sub_pattern_idx < pattern_indices@.len() {
                    self.current_sub_pattern_idx as int
                } else {
                    pattern_indices@.len() - 1
                };
                pattern_indices@[sub]
            },
        }
    }

    /// The current item exists and, if it is a group, is not empty.
    pub open spec fn has_current(self) -> bool {
        &&& self.current_item_idx < self.arranger@.len()
        &&& match self.arranger@[self.current_item_idx as int] {
            ArrangerItem::Single { .. } => true,
            ArrangerItem::Group { pattern_indices, .. } => pattern_indices@.len() > 0,
        }
    }

    /// A project with one track, one pattern "Pattern 01" of one track and 16 rows
    /// (see `Pattern::new`), arranged once; input step 1, the first scale, no
    /// transposition.
    pub fn new(first_track: T) -> (r: Project<T>)
        ensures
            r.patterns@.len() == 1,
            r.patterns@[0].name@ == "Pattern 01"@,
            r.patterns@[0].rows == 16,
            r.patterns@[0].bpm == 120,
            r.patterns@[0].repeat == 1,
            r.patterns@[0].time_sig_numerator == 4,
            r.patterns@[0].time_sig_denominator == 4,
            r.patterns@[0].note_value == 16,
            r.patterns@[0].measures == 1,
            r.patterns@[0].track_note_values@ == seq![16u8],
            r.patterns@[0].grid() == seq![seq![crate::project::pattern::empty_column(16)]],
            r.arranger@.len() == 1,
            r.arranger@[0] == (ArrangerItem::Single { pattern_idx: 0 }),
            r.current_item_idx == 0,
            r.current_sub_pattern_idx == 0,
            r.tracks@ == seq![first_track],
            r.step == 1,
            r.scale_index.0 == 0,
            r.transpose == 0,
            r.next_clone_id == 1,
    {
        proof {
            reveal_strlit("Pattern 01");
        }
        let p = Pattern::new(String::from_str("Pattern 01"), 1, 16);
        let mut patterns = Vec::new();
        patterns.push(p);
        let mut arranger = Vec::new();
        arranger.push(ArrangerItem::Single { pattern_idx: 0 });
        let mut tracks = Vec::new();
        tracks.push(first_track);
        let r = Project {
            patterns,
            arranger,
            current_item_idx: 0,
            current_sub_pattern_idx: 0,
            tracks,
            step: 1,
            scale_index: ScaleIndex(0),
            transpose: 0,
            next_clone_id: 1,
        };
        assert(r.patterns@[0].track_note_values@ =~= seq![16u8]);
        assert(r.patterns@[0].grid() =~= seq![seq![crate::project::pattern::empty_column(16)]]);
        assert(r.tracks@ =~= seq![first_track]);
        r
    }

    /// The index of the pattern the editor shows.
    pub fn current_pattern_idx(&self) -> (r: usize)
        requires
            self.has_current(),
        ensures
            r == self.current_pattern_idx_spec(),
    {
        match &self.arranger[self.current_item_idx] {
            ArrangerItem::Single { pattern_idx } => *pattern_idx,
            ArrangerItem::Group { pattern_indices, .. } => {
                let last = pattern_indices.len() - 1;
                let sub = if self.current_sub_pattern_idx < last {
                    self.current_sub_pattern_idx
                } else {
                    last
                };
                pattern_indices[sub]
            },
        }
    }

    /// The pattern the editor shows.
    pub fn current_pattern(&self) -> (r: &Pattern)
        requires
            self.has_current(),
            self.current_pattern_idx_spec() < self.patterns@.len(),
        ensures
            *r == self.patterns@[self.current_pattern_idx_spec() as int],
    {
        let idx = self.current_pattern_idx();
        &self.patterns[idx]
    }

    /// The pattern the editor shows, for changing it.
    pub fn current_pattern_mut(&mut self) -> (r: &mut Pattern)
        requires
            old(self).has_current(),
            old(self).current_pattern_idx_spec() < old(self).patterns@.len(),
        ensures
            *r == old(self).patterns@[old(self).current_pattern_idx_spec() as int],
            final(self).patterns@ == old(self).patterns@.update(
                old(self).current_pattern_idx_spec() as int,
                *final(r),
            ),
            final(self).arranger == old(self).arranger,
            final(self).current_item_idx == old(self).current_item_idx,
            final(self).current_sub_pattern_idx == old(self).current_sub_pattern_idx,
            final(self).tracks == old(self).tracks,
            final(self).step == old(self).step,
            final(self).scale_index == old(self).scale_index,
            final(self).transpose == old(self).transpose,
            final(self).next_clone_id == old(self).next_clone_id,
    {
        let idx = self.current_pattern_idx();
        &mut self.patterns[idx]
    }

    /// Adds a track at the end, and a matching track to the pattern the editor shows
    /// (see `Pattern::add_channel`).
    pub fn add_track(&mut self, track: T)
        requires
            old(self).has_current(),
            old(self).current_pattern_idx_spec() < old(self).patterns@.len(),
            old(self).patterns@[old(self).current_pattern_idx_spec() as int].time_sig_denominator > 0,
        ensures
            ({
                let ci = old(self).current_pattern_idx_spec() as int;
                &&& final(self).tracks@ == old(self).tracks@.push(track)
                &&& final(self).patterns@.len() == old(self).patterns@.len()
                &&& forall|q: int|
                    0 <= q < old(self).patterns@.len() && q != ci ==> #[trigger] final(self).patterns@[q]
                        == old(self).patterns@[q]
                &&& old(self).patterns@[ci].with_channel_added(final(self).patterns@[ci])
            }),
            final(self).arranger == old(self).arranger,
            final(self).current_item_idx == old(self).current_item_idx,
            final(self).current_sub_pattern_idx == old(self).current_sub_pattern_idx,
            final(self).step == old(self).step,
            final(self).scale_index == old(self).scale_index,
            final(self).transpose == old(self).transpose,
            final(self).next_clone_id == old(self).next_clone_id,
    {
        self.tracks.push(track);
        let pat_idx = self.current_pattern_idx();
        self.patterns[pat_idx].add_channel();
    }

    /// Deletes track `idx`, and the matching track of the pattern the editor shows (see
    /// `Pattern::remove_channel`). Nothing changes when it is the only track or does not
    /// exist.
    pub fn delete_track(&mut self, idx: usize)
        requires
            old(self).tracks@.len() > 1 && idx < old(self).tracks@.len() ==> {
                &&& old(self).has_current()
                &&& old(self).current_pattern_idx_spec() < old(self).patterns@.len()
                &&& old(self).patterns@[old(self).current_pattern_idx_spec() as int].time_sig_denominator > 0
            },
        ensures
            !(old(self).tracks@.len() > 1 && idx < old(self).tracks@.len()) ==> *final(self) == *old(self),
            old(self).tracks@.len() > 1 && idx < old(self).tracks@.len() ==> {
                let ci = old(self).current_pattern_idx_spec() as int;
                let p = old(self).patterns@[ci];
                &&& final(self).tracks@ == old(self).tracks@.remove(idx as int)
                &&& final(self).patterns@.len() == old(self).patterns@.len()
                &&& forall|q: int|
                    0 <= q < old(self).patterns@.len() && q != ci ==> #[trigger] final(self).patterns@[q]
                        == old(self).patterns@[q]
                &&& if idx < p.data@.len() && p.data@.len() > 1 {
                    p.with_channel_removed(idx as int, final(self).patterns@[ci])
                } else {
                    final(self).patterns@[ci] == p
                }
                &&& final(self).arranger == old(self).arranger
                &&& final(self).current_item_idx == old(self).current_item_idx
                &&& final(self).current_sub_pattern_idx == old(self).current_sub_pattern_idx
                &&& final(self).step == old(self).step
                &&& final(self).scale_index == old(self).scale_index
                &&& final(self).transpose == old(self).transpose
                &&& final(self).next_clone_id == old(self).next_clone_id
            },
    {
        if self.tracks.len() <= 1 || idx >= self.tracks.len() {
            return ;
        }
        self.tracks.remove(idx);
        let pat_idx = self.current_pattern_idx();
        self.patterns[pat_idx].remove_channel(idx);
    }

    /// How long the stretch of item `i` in the play order is, computed.
    fn item_len(&self, i: usize) -> (r: usize)
        requires
            i < self.arranger@.len(),
            self.indices_valid(),
            self.item_order(self.arranger@[i as int]).len() <= usize::MAX,
        ensures
            r == self.item_order(self.arranger@[i as int]).len(),
    {
        match &self.arranger[i] {
            ArrangerItem::Single { pattern_idx } => {
                assert(item_indices(self.arranger@[i as int])[0] < self.patterns@.len());
                plays_of(&self.patterns[*pattern_idx])
            },
            ArrangerItem::Group { repeat, pattern_indices, .. } => {
                let gr: usize = if *repeat >= 1 {
                    *repeat as usize
                } else {
                    1
                };
                proof {
                    lemma_repeat_len(self.pass_of(pattern_indices@), gr as nat);
                    assert(self.pass_of(pattern_indices@).len() <= gr * self.pass_of(
                        pattern_indices@,
                    ).len()) by (nonlinear_arith)
                        requires gr >= 1;
                }
                let inner = self.pass_len(pattern_indices, i);
                gr * inner
            },
        }
    }

    /// The length of one pass through a group's patterns, computed.
    fn pass_len(&self, indices: &Vec<usize>, i: usize) -> (r: usize)
        requires
            i < self.arranger@.len(),
            item_indices(self.arranger@[i as int]) == indices@,
            self.indices_valid(),
            self.pass_of(indices@).len() <= usize::MAX,
        ensures
            r == self.pass_of(indices@).len(),
    {
        let mut sum: usize = 0;
        let mut m: usize = 0;
        while m < indices.len()
            invariant
                m <= indices@.len(),
                i < self.arranger@.len(),
                item_indices(self.arranger@[i as int]) == indices@,
                self.indices_valid(),
                self.pass_of(indices@).len() <= usize::MAX,
                sum == self.sub_start(indices@, m as int),
            decreases indices@.len() - m,
        {
            assert(item_indices(self.arranger@[i as int])[m as int] < self.patterns@.len());
            let p = plays_of(&self.patterns[indices[m]]);
            proof {
                self.lemma_sub_start_step(indices@, m as int);
                self.lemma_sub_start_le_pass(indices@, m as int + 1);
            }
            sum = sum + p;
            m = m + 1;
        }
        assert(indices@.take(indices@.len() as int) =~= indices@);
        sum
    }

    /// The song's play order: the pattern index of every pattern played, in order.
    pub fn flat_order(&self) -> (r: Vec<usize>)
        requires
            self.indices_valid(),
        ensures
            r@ == self.flat_order_spec(),
    {
        let mut order: Vec<usize> = Vec::new();
        let mut i: usize = 0;
        while i < self.arranger.len()
            invariant
                i <= self.arranger@.len(),
                self.indices_valid(),
                order@ == self.order_upto(i as nat),
            decreases self.arranger@.len() - i,
        {
            let ghost base = order@;
            match &self.arranger[i] {
                ArrangerItem::Single { pattern_idx } => {
                    let pi = *pattern_idx;
                    assert(item_indices(self.arranger@[i as int])[0] < self.patterns@.len());
                    let rep = plays_of(&self.patterns[pi]);
                    let mut k: usize = 0;
                    while k < rep
                        invariant
                            k <= rep,
                            order@ == base + Seq::new(k as nat, |j: int| pi),
                        decreases rep - k,
                    {
                        order.push(pi);
                        k = k + 1;
                        assert(order@ =~= base + Seq::new(k as nat, |j: int| pi));
                    }
                },
                ArrangerItem::Group { repeat, pattern_indices, .. } => {
                    let gr: usize = if *repeat >= 1 {
                        *repeat as usize
                    } else {
                        1
                    };
                    let ghost pass = self.pass_of(pattern_indices@);
                    let mut g: usize = 0;
                    while g < gr
                        invariant
                            g <= gr,
                            i < self.arranger@.len(),
                            item_indices(self.arranger@[i as int]) == pattern_indices@,
                            self.indices_valid(),
                            pass == self.pass_of(pattern_indices@),
                            order@ == base + repeat_seq(pass, g as nat),
                        decreases gr - g,
                    {
                        let ghost base2 = order@;
                        let mut m: usize = 0;
                        while m < pattern_indices.len()
                            invariant
                                m <= pattern_indices@.len(),
                                i < self.arranger@.len(),
                                item_indices(self.arranger@[i as int]) == pattern_indices@,
                                self.indices_valid(),
                                order@ == base2 + self.pass_of(pattern_indices@.take(m as int)),
                            decreases pattern_indices@.len() - m,
                        {
                            let pi = pattern_indices[m];
                            assert(item_indices(self.arranger@[i as int])[m as int]
                                < self.patterns@.len());
                            let rep = plays_of(&self.patterns[pi]);
                            let ghost base3 = order@;
                            let mut k: usize = 0;
                            while k < rep
                                invariant
                                    k <= rep,
                                    order@ == base3 + Seq::new(k as nat, |j: int| pi),
                                decreases rep - k,
                            {
                                order.push(pi);
                                k = k + 1;
                                assert(order@ =~= base3 + Seq::new(k as nat, |j: int| pi));
                            }
                            assert(pattern_indices@.take(m + 1).drop_last() =~= pattern_indices@.take(
                                m as int,
                            ));
                            m = m + 1;
                            assert(order@ =~= base2 + self.pass_of(pattern_indices@.take(m as int)));
                        }
                        assert(pattern_indices@.take(pattern_indices@.len() as int)
                            =~= pattern_indices@);
                        g = g + 1;
                        assert(order@ =~= base + repeat_seq(pass, g as nat));
                    }
                },
            }
            i = i + 1;
            assert(order@ =~= self.order_upto(i as nat));
        }
        order
    }

    /// Where item `target` starts in the play order; past the last item, the length of the
    /// play order.
    pub fn item_idx_to_flat_start(&self, target_idx: usize) -> (r: usize)
        requires
            self.indices_valid(),
            self.flat_order_spec().len() <= usize::MAX,
        ensures
            r == if target_idx < self.arranger@.len() {
                self.item_start(target_idx as int)
            } else {
                self.flat_order_spec().len()
            },
    {
        let mut pos: usize = 0;
        let mut i: usize = 0;
        while i < self.arranger.len()
            invariant
                i <= self.arranger@.len(),
                self.indices_valid(),
                self.flat_order_spec().len() <= usize::MAX,
                pos == self.item_start(i as int),
                i <= target_idx || target_idx >= self.arranger@.len(),
            decreases self.arranger@.len() - i,
        {
            if i == target_idx {
                return pos;
            }
            proof {
                self.lemma_order_upto_len_mono((i + 1) as nat, self.arranger@.len());
            }
            let len = self.item_len(i);
            pos = pos + len;
            i = i + 1;
        }
        pos
    }

    /// The arranger position of entry `flat_idx` of the play order (see `locates`).
    pub fn flat_order_to_item_idx(&self, flat_idx: usize) -> (r: (usize, usize))
        requires
            self.indices_valid(),
            self.flat_order_spec().len() <= usize::MAX,
        ensures
            self.locates(flat_idx as int, r),
    {
        let mut pos: usize = 0;
        let mut i: usize = 0;
        while i < self.arranger.len()
            invariant
                i <= self.arranger@.len(),
                self.indices_valid(),
                self.flat_order_spec().len() <= usize::MAX,
                pos == self.item_start(i as int),
                flat_idx >= pos,
            decreases self.arranger@.len() - i,
        {
            proof {
                self.lemma_order_upto_len_mono((i + 1) as nat, self.arranger@.len());
            }
            let len = self.item_len(i);
            if flat_idx < pos + len {
                proof {
                    self.lemma_order_upto_len_mono(self.arranger@.len(), self.arranger@.len());
                    self.lemma_order_upto_len_mono((i + 1) as nat, self.arranger@.len());
                }
                match &self.arranger[i] {
                    ArrangerItem::Single { .. } => {
                        return (i, 0);
                    },
                    ArrangerItem::Group { repeat, pattern_indices, .. } => {
                        let ghost gr = group_plays(*repeat);
                        proof {
                            lemma_repeat_len(self.pass_of(pattern_indices@), gr);
                            assert(self.pass_of(pattern_indices@).len() <= gr * self.pass_of(
                                pattern_indices@,
                            ).len()) by (nonlinear_arith)
                                requires gr >= 1;
                        }
                        let inner = self.pass_len(pattern_indices, i);
                        if inner == 0 {
                            assert(false) by {
                                assert(gr * 0 == 0) by (nonlinear_arith);
                            }
                            return (i, 0);
                        }
                        let offset = (flat_idx - pos) % inner;
                        let mut sub_pos: usize = 0;
                        let mut sub_idx: usize = 0;
                        while sub_idx < pattern_indices.len()
                            invariant
                                sub_idx <= pattern_indices@.len(),
                                i < self.arranger@.len(),
                                item_indices(self.arranger@[i as int]) == pattern_indices@,
                                self.indices_valid(),
                                inner == self.pass_of(pattern_indices@).len(),
                                offset < inner,
                                offset == (flat_idx - pos) % (inner as int),
                                pos == self.item_start(i as int),
                                pos <= flat_idx < self.item_start(i + 1),
                                flat_idx < self.flat_order_spec().len(),
                                sub_pos == self.sub_start(pattern_indices@, sub_idx as int),
                                offset >= sub_pos,
                            decreases pattern_indices@.len() - sub_idx,
                        {
                            assert(item_indices(self.arranger@[i as int])[sub_idx as int]
                                < self.patterns@.len());
                            let slots = plays_of(&self.patterns[pattern_indices[sub_idx]]);
                            proof {
                                self.lemma_sub_start_step(pattern_indices@, sub_idx as int);
                                self.lemma_sub_start_le_pass(pattern_indices@, sub_idx as int + 1);
                            }
                            if offset < sub_pos + slots {
                                return (i, sub_idx);
                            }
                            sub_pos = sub_pos + slots;
                            sub_idx = sub_idx + 1;
                        }
                        assert(pattern_indices@.take(pattern_indices@.len() as int)
                            =~= pattern_indices@);
                        assert(false);
                        return (i, 0);
                    },
                }
            }
            pos = pos + len;
            i = i + 1;
        }
        proof {
            self.lemma_order_upto_len_mono(self.arranger@.len(), self.arranger@.len());
        }
        if self.arranger.len() > 0 {
            (self.arranger.len() - 1, 0)
        } else {
            (0, 0)
        }
    }

    /// One more item extends the play order by that item's stretch.
    proof fn lemma_order_upto_len_mono(self, i: nat, k: nat)
        requires
            i <= k <= self.arranger@.len(),
        ensures
            self.order_upto(i).len() <= self.order_upto(k).len(),
            i >= 1 ==> self.order_upto(i).len() == self.order_upto((i - 1) as nat).len()
                + self.item_order(self.arranger@[i - 1]).len(),
        decreases k - i,
    {
        if i < k {
            self.lemma_order_upto_len_mono(i, (k - 1) as nat);
        }
    }

    /// The next pattern of a group starts where the previous one ends.
    proof fn lemma_sub_start_step(self, indices: Seq<usize>, s: int)
        requires
            0 <= s < indices.len(),
        ensures
            self.sub_start(indices, s + 1) == self.sub_start(indices, s) + self.plays(
                indices[s] as int,
            ),
    {
        assert(indices.take(s + 1).drop_last() =~= indices.take(s));
    }

    /// A prefix of a group's pass is no longer than the pass.
    proof fn lemma_sub_start_le_pass(self, indices: Seq<usize>, s: int)
        requires
            0 <= s <= indices.len(),
        ensures
            self.sub_start(indices, s) <= self.pass_of(indices).len(),
        decreases indices.len() - s,
    {
        if s < indices.len() {
            self.lemma_sub_start_step(indices, s);
            self.lemma_sub_start_le_pass(indices, s + 1);
        } else {
            assert(indices.take(s) =~= indices);
        }
    }

    /// Later items do not change the play order of earlier ones.
    proof fn lemma_order_upto_prefix(self, i: nat, n: nat, j: int)
        requires
            i <= n <= self.arranger@.len(),
            0 <= j < self.order_upto(i).len(),
        ensures
            self.order_upto(n)[j] == self.order_upto(i)[j],
        decreases n - i,
    {
        if i < n {
            self.lemma_order_upto_prefix(i, (n - 1) as nat, j);
            self.lemma_order_upto_len_mono(i, (n - 1) as nat);
        }
    }

    /// The play order of the first `k` items is that of the list of those items.
    pub proof fn lemma_order_upto_items(self, k: nat)
        requires
            k <= self.arranger@.len(),
        ensures
            self.order_upto(k) == self.items_order(self.arranger@.take(k as int)),
        decreases k,
    {
        if k > 0 {
            self.lemma_order_upto_items((k - 1) as nat);
            assert(self.arranger@.take(k as int).drop_last() =~= self.arranger@.take(k - 1));
        }
    }

    /// The play order of two lists of items, one after the other, is the one's followed
    /// by the other's.
    pub proof fn lemma_items_order_concat(self, a: Seq<ArrangerItem>, b: Seq<ArrangerItem>)
        ensures
            self.items_order(a + b) == self.items_order(a) + self.items_order(b),
        decreases b.len(),
    {
        if b.len() == 0 {
            assert(a + b =~= a);
            assert(self.items_order(a) + self.items_order(b) =~= self.items_order(a));
        } else {
            self.lemma_items_order_concat(a, b.drop_last());
            assert((a + b).drop_last() =~= a + b.drop_last());
            assert((a + b).last() == b.last());
            assert(self.items_order(a + b) =~= self.items_order(a) + self.items_order(b));
        }
    }

    /// The play order of the whole arranger, split around item `i`.
    pub proof fn lemma_flat_order_split(self, i: int)
        requires
            0 <= i < self.arranger@.len(),
        ensures
            self.flat_order_spec() == self.items_order(self.arranger@.take(i)) + self.item_order(
                self.arranger@[i],
            ) + self.items_order(self.arranger@.skip(i + 1)),
    {
        let a = self.arranger@;
        self.lemma_order_upto_items(a.len());
        assert(a.take(a.len() as int) =~= a);
        assert(a =~= a.take(i) + (seq![a[i]] + a.skip(i + 1)));
        self.lemma_items_order_concat(a.take(i), seq![a[i]] + a.skip(i + 1));
        self.lemma_items_order_concat(seq![a[i]], a.skip(i + 1));
        assert(seq![a[i]].drop_last() =~= Seq::<ArrangerItem>::empty());
        assert(self.items_order(Seq::<ArrangerItem>::empty()) =~= Seq::<usize>::empty());
        assert(seq![a[i]].last() == a[i]);
        assert(self.items_order(seq![a[i]]) =~= self.item_order(a[i]));
        assert(self.flat_order_spec() =~= self.items_order(a.take(i)) + self.item_order(a[i])
            + self.items_order(a.skip(i + 1)));
    }

    /// The play order of single items for some patterns is one pass through them.
    pub proof fn lemma_items_order_singles(self, indices: Seq<usize>)
        ensures
            self.items_order(
                Seq::new(indices.len(), |k: int| ArrangerItem::Single { pattern_idx: indices[k] }),
            ) == self.pass_of(indices),
        decreases indices.len(),
    {
        let s = Seq::new(indices.len(), |k: int| ArrangerItem::Single { pattern_idx: indices[k] });
        if indices.len() > 0 {
            let d = indices.drop_last();
            self.lemma_items_order_singles(d);
            assert(s.drop_last() =~= Seq::new(
                d.len(),
                |k: int| ArrangerItem::Single { pattern_idx: d[k] },
            ));
        } else {
            assert(self.items_order(s) =~= self.pass_of(indices));
        }
    }

    /// The play order of a list of items depends on the project's patterns alone.
    pub proof fn lemma_items_order_patterns(self, other: Project<T>, items: Seq<ArrangerItem>)
        requires
            self.patterns == other.patterns,
        ensures
            self.items_order(items) == other.items_order(items),
        decreases items.len(),
    {
        if items.len() > 0 {
            self.lemma_items_order_patterns(other, items.drop_last());
            match items.last() {
                ArrangerItem::Single { .. } => {},
                ArrangerItem::Group { pattern_indices, .. } => {
                    self.lemma_pass_of_patterns(other, pattern_indices@);
                },
            }
        }
    }

    /// One pass through a group depends on the project's patterns alone.
    pub proof fn lemma_pass_of_patterns(self, other: Project<T>, indices: Seq<usize>)
        requires
            self.patterns == other.patterns,
        ensures
            self.pass_of(indices) == other.pass_of(indices),
        decreases indices.len(),
    {
        if indices.len() > 0 {
            self.lemma_pass_of_patterns(other, indices.drop_last());
        }
    }

    /// Entry `j` of a pass through a group is the group's pattern in whose stretch `j` lies.
    proof fn lemma_pass_index(self, indices: Seq<usize>, o: int, s: int)
        requires
            0 <= s < indices.len(),
            self.sub_start(indices, s) <= o < self.sub_start(indices, s + 1),
        ensures
            o < self.pass_of(indices).len(),
            self.pass_of(indices)[o] == indices[s],
        decreases indices.len(),
    {
        let n = indices.len();
        let d = indices.drop_last();
        assert(indices.take(n as int) =~= indices);
        self.lemma_sub_start_le_pass(indices, s + 1);
        if s == n - 1 {
            assert(indices.take(s) =~= d);
        } else {
            assert(indices.take(s) =~= d.take(s));
            assert(indices.take(s + 1) =~= d.take(s + 1));
            self.lemma_sub_start_le_pass(d, s + 1);
            self.lemma_pass_index(d, o, s);
        }
    }

    /// Each pattern of a group takes at least one entry of a pass.
    proof fn lemma_sub_start_grows(self, indices: Seq<usize>, t: int)
        requires
            0 <= t <= indices.len(),
        ensures
            self.sub_start(indices, t) >= t,
        decreases t,
    {
        if t > 0 {
            self.lemma_sub_start_grows(indices, t - 1);
            self.lemma_sub_start_step(indices, t - 1);
        }
    }

    /// An item that names at least one pattern plays at least once.
    proof fn lemma_item_nonempty(self, i: int)
        requires
            0 <= i < self.arranger@.len(),
            item_indices(self.arranger@[i]).len() > 0,
        ensures
            self.item_order(self.arranger@[i]).len() >= 1,
    {
        match self.arranger@[i] {
            ArrangerItem::Single { .. } => {},
            ArrangerItem::Group { repeat, pattern_indices, .. } => {
                let ind = pattern_indices@;
                self.lemma_sub_start_grows(ind, 1);
                self.lemma_sub_start_le_pass(ind, 1);
                let g = group_plays(repeat);
                lemma_repeat_len(self.pass_of(ind), g);
                assert(g * self.pass_of(ind).len() >= 1) by (nonlinear_arith)
                    requires g >= 1, self.pass_of(ind).len() >= 1;
            },
        }
    }

    /// Law: entry `k` of the play order is the pattern at the arranger position that
    /// `flat_order_to_item_idx(k)` returns.
    pub proof fn lemma_located_entry(self, k: int, r: (usize, usize))
        requires
            0 <= k < self.flat_order_spec().len(),
            self.locates(k, r),
        ensures
            self.flat_order_spec()[k] == item_indices(self.arranger@[r.0 as int])[r.1 as int],
    {
        let i = r.0 as int;
        let start = self.item_start(i);
        self.lemma_order_upto_len_mono((i + 1) as nat, self.arranger@.len());
        self.lemma_order_upto_prefix((i + 1) as nat, self.arranger@.len(), k);
        let j = k - start;
        assert(self.order_upto((i + 1) as nat)[k] == self.item_order(self.arranger@[i])[j]);
        match self.arranger@[i] {
            ArrangerItem::Single { .. } => {},
            ArrangerItem::Group { repeat, pattern_indices, .. } => {
                let ind = pattern_indices@;
                let pass = self.pass_of(ind);
                let g = group_plays(repeat);
                lemma_repeat_len(pass, g);
                if pass.len() == 0 {
                    assert(g * pass.len() == 0) by (nonlinear_arith)
                        requires pass.len() == 0;
                }
                lemma_repeat_index(pass, g, j);
                self.lemma_pass_index(ind, j % (pass.len() as int), r.1 as int);
            },
        }
    }

    /// Law: the play-order position where an item starts is that item, at its first
    /// pattern: `flat_order_to_item_idx(item_idx_to_flat_start(i)) == (i, 0)` for every
    /// item that names at least one pattern.
    pub proof fn lemma_start_locates_item(self, i: int, r: (usize, usize))
        requires
            0 <= i < self.arranger@.len(),
            item_indices(self.arranger@[i]).len() > 0,
            self.locates(self.item_start(i) as int, r),
        ensures
            r == (i as usize, 0usize),
    {
        self.lemma_item_nonempty(i);
        self.lemma_order_upto_len_mono((i + 1) as nat, self.arranger@.len());
        let k = self.item_start(i) as int;
        let a = r.0 as int;
        if a < i {
            self.lemma_order_upto_len_mono((a + 1) as nat, i as nat);
        } else if a > i {
            self.lemma_order_upto_len_mono((i + 1) as nat, a as nat);
        }
        assert(a == i);
        match self.arranger@[i] {
            ArrangerItem::Single { .. } => {},
            ArrangerItem::Group { pattern_indices, .. } => {
                let ind = pattern_indices@;
                let len = self.pass_of(ind).len() as int;
                if len > 0 {
                    assert(0int % len == 0) by (nonlinear_arith)
                        requires len > 0;
                }
                self.lemma_sub_start_grows(ind, r.1 as int);
            },
        }
    }
}

} // verus!
