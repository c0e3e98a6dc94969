//! The play queue: its songs, which one plays, and what plays next or before.
use vstd::prelude::*;
use vstd::multiset::Multiset;
use crate::sequence::{Repeat, Shuffle};
use crate::random::{shuffle, thread_rng};

verus! {

broadcast use vstd::seq_lib::group_seq_properties, vstd::multiset::group_multiset_axioms;

/// Whether a queued song plays, is paused, or is stopped.
#[derive(Debug, Clone, Copy, PartialEq, Eq, Structural)]
pub enum PlayState {
    Play,
    Pause,
    Stop,
}

/// The parts of a song that the queue reads and hands out.
#[derive(Debug)]
pub struct Song {
    pub id: String,
    pub title: String,
    pub artist: Option<String>,
    pub starred: bool,
    pub play_count: Option<i64>,
}

/// The contents of a song, as values.
pub struct SongView {
    pub id: Seq<char>,
    pub title: Seq<char>,
    pub artist: Option<Seq<char>>,
    pub starred: bool,
    pub play_count: Option<i64>,
}

impl View for Song {
    type V = SongView;

    open spec fn view(&self) -> SongView {
        SongView {
            id: self.id@,
            title: self.title@,
            artist: match self.artist {
                Some(a) => Some(a@),
                None => None,
            },
            starred: self.starred,
            play_count: self.play_count,
        }
    }
}

fn clone_opt_string(s: &Option<String>) -> (r: Option<String>)
    ensures
        r is Some <==> s is Some,
        r matches Some(x) ==> x@ == s->0@,
{
    match s {
        Some(x) => Some(x.clone()),
        None => None,
    }
}

impl Song {
    /// A copy of the song.
    pub fn duplicate(&self) -> (r: Song)
        ensures
            r@ == self@,
    {
        Song {
            id: self.id.clone(),
            title: self.title.clone(),
            artist: clone_opt_string(&self.artist),
            starred: self.starred,
            play_count: self.play_count,
        }
    }
}

/// One row of the queue: a song, the number that tells the row apart, and its play state.
#[derive(Debug)]
pub struct QueueRow {
    pub uid: usize,
    pub song: Song,
    pub state: PlayState,
}

/// The rows of the queue and the random order in which shuffle plays them.
pub struct Queue {
    rows: Vec<QueueRow>,
    order: Vec<usize>,
    next_uid: usize,
}

/// `order` lists every index below `n` exactly once.
pub open spec fn is_order_of(order: Seq<usize>, n: nat) -> bool {
    &&& order.len() == n
    &&& order.no_duplicates()
    &&& forall|k: int| 0 <= k < order.len() ==> #[trigger] order[k] < n
    &&& forall|j: usize| j < n ==> #[trigger] order.contains(j)
}

/// `order` lists indices below `n`, each at most once: the shuffle order of a queue of `n`
/// songs, which inserting songs where they were dropped leaves as it was.
pub open spec fn order_ok(order: Seq<usize>, n: nat) -> bool {
    &&& order.no_duplicates()
    &&& forall|k: int| 0 <= k < order.len() ==> #[trigger] order[k] < n
}

/// Row `i` is the first row whose song is not stopped.
pub open spec fn first_active(rows: Seq<QueueRow>, i: int) -> bool {
    &&& 0 <= i < rows.len()
    &&& rows[i].state != PlayState::Stop
    &&& forall|j: int| 0 <= j < i ==> (#[trigger] rows[j]).state == PlayState::Stop
}

/// The index of the current song: the first one that plays or is paused.
pub open spec fn current_of(rows: Seq<QueueRow>) -> Option<int> {
    if exists|i: int| first_active(rows, i) {
        Some(choose|i: int| first_active(rows, i))
    } else {
        None
    }
}

/// Where index `i` stands in the shuffle order.
pub open spec fn position_in(order: Seq<usize>, i: int) -> int {
    choose|k: int| 0 <= k < order.len() && order[k] == i
}

/// What a step through the queue does.
#[derive(Debug, Clone, Copy, PartialEq, Eq, Structural)]
pub enum QueueStep {
    /// The song at this index plays, every other one is stopped.
    Activate(usize),
    /// Every song is stopped: the end of the queue was reached.
    StopAll,
    /// Nothing changes.
    Nothing,
}

/// The step of "play next" in a queue of `len` songs whose current song is `cur`.
pub open spec fn next_step(len: nat, cur: Option<int>, repeat: Repeat, shuffle: Shuffle, order: Seq<usize>) -> QueueStep {
    if len == 0 {
        QueueStep::Nothing
    } else {
        match cur {
            None => QueueStep::Activate(0),
            Some(i) => if repeat == Repeat::One {
                QueueStep::Activate(i as usize)
            } else if i + 1 == len && shuffle != Shuffle::Shuffle && repeat == Repeat::All {
                QueueStep::Activate(0)
            } else if shuffle == Shuffle::Shuffle {
                QueueStep::Activate(order[(position_in(order, i) + 1) % (order.len() as int)])
            } else if i + 1 == len {
                QueueStep::StopAll
            } else {
                QueueStep::Activate((i + 1) as usize)
            },
        }
    }
}

/// The step of "play previous" in a queue of `len` songs whose current song is `cur`.
pub open spec fn previous_step(len: nat, cur: Option<int>, repeat: Repeat, shuffle: Shuffle, order: Seq<usize>) -> QueueStep {
    if len == 0 {
        QueueStep::Nothing
    } else {
        match cur {
            None => QueueStep::Nothing,
            Some(i) => if repeat == Repeat::One {
                QueueStep::Activate(i as usize)
            } else if i == 0 && repeat == Repeat::All {
                QueueStep::Activate((len - 1) as usize)
            } else if shuffle == Shuffle::Shuffle {
                let k = position_in(order, i);
                if k == 0 {
                    QueueStep::Activate(order[order.len() - 1])
                } else {
                    QueueStep::Activate(order[k - 1])
                }
            } else {
                QueueStep::Activate((i - 1) as usize)
            },
        }
    }
}

/// Whether "play next" is defined: in shuffle mode, unless it repeats one song, the current
/// song must stand in the shuffle order (songs inserted where they were dropped do not).
pub open spec fn next_defined(len: nat, cur: Option<int>, repeat: Repeat, shuffle: Shuffle, order: Seq<usize>) -> bool {
    match cur {
        Some(i) => (len > 0 && repeat != Repeat::One && shuffle == Shuffle::Shuffle) ==> order.contains(i as usize),
        None => true,
    }
}

/// Whether "play previous" is defined: played in order without repeat, the first song has
/// no previous one; in shuffle mode, unless it repeats one song or the whole queue from its
/// first song, the current song must stand in the shuffle order.
pub open spec fn previous_defined(len: nat, cur: Option<int>, repeat: Repeat, shuffle: Shuffle, order: Seq<usize>) -> bool {
    match cur {
        Some(i) => {
            &&& !(len > 0 && i == 0 && repeat == Repeat::Normal && shuffle == Shuffle::Sequential)
            &&& (len > 0 && repeat != Repeat::One && !(i == 0 && repeat == Repeat::All) && shuffle
                == Shuffle::Shuffle) ==> order.contains(i as usize)
        },
        None => true,
    }
}

/// Whether "play next" can do anything: the queue holds songs, and unless it repeats or
/// shuffles, the current song is not past its last one.
pub open spec fn can_play_next_of(len: nat, cur: Option<int>, repeat: Repeat, shuffle: Shuffle) -> bool {
    if len == 0 {
        false
    } else if repeat != Repeat::Normal || shuffle == Shuffle::Shuffle {
        true
    } else {
        match cur {
            Some(i) => i != len,
            None => true,
        }
    }
}

/// Whether "play previous" can do anything: the queue holds songs, and unless it repeats or
/// shuffles, a current song that is not the first one.
pub open spec fn can_play_previous_of(len: nat, cur: Option<int>, repeat: Repeat, shuffle: Shuffle) -> bool {
    if len == 0 {
        false
    } else if repeat != Repeat::Normal || shuffle == Shuffle::Shuffle {
        true
    } else {
        match cur {
            Some(i) => i != 0,
            None => false,
        }
    }
}

/// `new` holds the rows of `old` with the states that `state_of` gives them.
pub open spec fn restated(old: Seq<QueueRow>, new: Seq<QueueRow>, state_of: spec_fn(int) -> PlayState) -> bool {
    &&& new.len() == old.len()
    &&& forall|i: int|
        0 <= i < new.len() ==> (#[trigger] new[i]).uid == old[i].uid && new[i].song == old[i].song
            && new[i].state == state_of(i)
}

/// The rows carry distinct numbers, each below `bound`.
pub open spec fn uids_ok(rows: Seq<QueueRow>, bound: int) -> bool {
    &&& forall|i: int| 0 <= i < rows.len() ==> (#[trigger] rows[i]).uid < bound
    &&& forall|i: int, j: int| 0 <= i < rows.len() && 0 <= j < rows.len() && i != j ==> (#[trigger] rows[i]).uid != (#[trigger] rows[j]).uid
}

/// New stopped rows for `songs`, numbered from `start` on.
pub open spec fn fresh_rows(songs: Seq<Song>, start: int) -> Seq<QueueRow> {
    Seq::new(songs.len(), |k: int| QueueRow { uid: (start + k) as usize, song: songs[k], state: PlayState::Stop })
}

proof fn lemma_uids_insert(a: Seq<QueueRow>, b: Seq<QueueRow>, songs: Seq<Song>, start: int)
    requires
        uids_ok(a + b, start),
        0 <= start,
        start + songs.len() <= usize::MAX,
    ensures
        uids_ok(a + fresh_rows(songs, start) + b, start + songs.len()),
{
    lemma_uids_insert_gen(a, fresh_rows(songs, start), b, start);
}

proof fn lemma_uids_insert_gen(a: Seq<QueueRow>, f: Seq<QueueRow>, b: Seq<QueueRow>, start: int)
    requires
        uids_ok(a + b, start),
        0 <= start,
        start + f.len() <= usize::MAX,
        forall|k: int| 0 <= k < f.len() ==> (#[trigger] f[k]).uid == start + k,
    ensures
        uids_ok(a + f + b, start + f.len()),
{
    let r = a + f + b;
    let ab = a + b;
    assert forall|i: int| 0 <= i < r.len() implies (#[trigger] r[i]).uid < start + f.len() by {
        if i < a.len() {
            assert(r[i] == ab[i]);
        } else if i < a.len() + f.len() {
        } else {
            assert(r[i] == ab[i - f.len()]);
        }
    }
    assert forall|i: int, j: int| 0 <= i < r.len() && 0 <= j < r.len() && i != j implies (#[trigger] r[i]).uid != (#[trigger] r[j]).uid by {
        let in_f_i = a.len() <= i < a.len() + f.len();
        let in_f_j = a.len() <= j < a.len() + f.len();
        let ii = if i < a.len() { i } else { i - f.len() };
        let jj = if j < a.len() { j } else { j - f.len() };
        if !in_f_i {
            assert(r[i] == ab[ii]);
        }
        if !in_f_j {
            assert(r[j] == ab[jj]);
        }
        if !in_f_i && !in_f_j {
            assert(ab[ii].uid != ab[jj].uid);
        }
    }
}

/// The state that "only `target` has `state`" gives row `i`.
pub open spec fn only_state(target: Option<usize>, state: PlayState, i: int) -> PlayState {
    if target matches Some(t) && t as int == i {
        state
    } else {
        PlayState::Stop
    }
}

/// The rows after `step`: the activated song plays and every other one is stopped, or all
/// are stopped, or nothing changes.
pub open spec fn after_step(old: Seq<QueueRow>, new: Seq<QueueRow>, step: QueueStep) -> bool {
    match step {
        QueueStep::Activate(k) => restated(
            old,
            new,
            |i: int| if i == k { PlayState::Play } else { PlayState::Stop },
        ),
        QueueStep::StopAll => restated(old, new, |i: int| PlayState::Stop),
        QueueStep::Nothing => new == old,
    }
}

proof fn lemma_first_active_unique(rows: Seq<QueueRow>, i: int, j: int)
    requires
        first_active(rows, i),
        first_active(rows, j),
    ensures
        i == j,
{
    if i < j {
        assert(rows[i].state == PlayState::Stop);
    } else if j < i {
        assert(rows[j].state == PlayState::Stop);
    }
}

proof fn lemma_position_unique(order: Seq<usize>, i: int, k: int)
    requires
        order.no_duplicates(),
        0 <= k < order.len(),
        order[k] == i,
    ensures
        position_in(order, i) == k,
{
    let c = position_in(order, i);
    assert(0 <= c < order.len() && order[c] == i);
}

proof fn lemma_in_order(order: Seq<usize>, n: nat, j: int)
    requires
        is_order_of(order, n),
        n <= usize::MAX,
        0 <= j < n,
    ensures
        0 <= position_in(order, j) < n,
        order[position_in(order, j)] == j,
{
    assert(order.contains(j as usize));
    let k = choose|k: int| 0 <= k < order.len() && order[k] == j as usize;
    lemma_position_unique(order, j, k);
}

proof fn lemma_range_is_order(n: nat, v: Seq<usize>)
    requires
        v.len() == n,
        forall|k: int| 0 <= k < n ==> v[k] == k,
    ensures
        is_order_of(v, n),
{
    assert forall|j: usize| j < n implies #[trigger] v.contains(j) by {
        assert(v[j as int] == j);
    }
}

proof fn lemma_permuted_order(a: Seq<usize>, b: Seq<usize>, n: nat)
    requires
        is_order_of(a, n),
        b.to_multiset() == a.to_multiset(),
    ensures
        is_order_of(b, n),
{
    a.to_multiset_ensures();
    b.to_multiset_ensures();
    a.lemma_multiset_has_no_duplicates();
    assert forall|x: usize| b.to_multiset().contains(x) implies b.to_multiset().count(x) == 1 by {}
    b.lemma_multiset_has_no_duplicates_conv();
    assert forall|k: int| 0 <= k < b.len() implies #[trigger] b[k] < n by {
        assert(b.contains(b[k]));
        assert(a.to_multiset().count(b[k]) > 0);
        assert(a.contains(b[k]));
    }
    assert forall|j: usize| j < n implies #[trigger] b.contains(j) by {
        assert(a.contains(j));
        assert(a.to_multiset().count(j) > 0);
    }
}

/// The indices `0..n` in increasing order.
fn identity_order(n: usize) -> (order: Vec<usize>)
    ensures
        is_order_of(order@, n as nat),
{
    let mut order: Vec<usize> = Vec::new();
    let mut i: usize = 0;
    while i < n
        invariant
            0 <= i <= n,
            order@.len() == i,
            forall|k: int| 0 <= k < i ==> order@[k] == k,
        decreases n - i,
    {
        order.push(i);
        i = i + 1;
    }
    proof {
        lemma_range_is_order(n as nat, order@);
    }
    order
}

impl Queue {
    /// The rows of the queue.
    pub closed spec fn rows(&self) -> Seq<QueueRow> {
        self.rows@
    }

    /// The order in which shuffle plays the rows.
    pub closed spec fn order(&self) -> Seq<usize> {
        self.order@
    }

    /// The number the next new row will carry.
    pub closed spec fn next_uid(&self) -> usize {
        self.next_uid
    }

    /// The shuffle order lists rows of the queue, each at most once, and the rows carry
    /// distinct numbers below the next one.
    pub closed spec fn wf(&self) -> bool {
        &&& order_ok(self.order@, self.rows@.len())
        &&& uids_ok(self.rows@, self.next_uid as int)
    }

    /// An empty queue.
    pub fn new() -> (r: Queue)
        ensures
            r.wf(),
            r.rows().len() == 0,
            r.next_uid() == 0,
    {
        Queue { rows: Vec::new(), order: Vec::new(), next_uid: 0 }
    }

    /// The number of songs in the queue.
    pub fn len(&self) -> (r: usize)
        ensures
            r == self.rows().len(),
    {
        self.rows.len()
    }

    /// The row at `index`.
    pub fn get(&self, index: usize) -> (r: Option<&QueueRow>)
        ensures
            index < self.rows().len() ==> r == Some(&self.rows()[index as int]),
            index >= self.rows().len() ==> r is None,
    {
        if index < self.rows.len() {
            Some(&self.rows[index])
        } else {
            None
        }
    }

    /// Whether there is anything to play.
    pub fn can_play(&self) -> (r: bool)
        ensures
            r == (self.rows().len() > 0),
    {
        self.rows.len() > 0
    }

    /// The index of the current song: the first that plays or is paused.
    pub fn current(&self) -> (r: Option<usize>)
        ensures
            r is None <==> current_of(self.rows()) is None,
            r matches Some(i) ==> current_of(self.rows()) == Some(i as int) && i < self.rows().len(),
    {
        let mut i: usize = 0;
        while i < self.rows.len()
            invariant
                0 <= i <= self.rows@.len(),
                forall|j: int| 0 <= j < i ==> (#[trigger] self.rows@[j]).state == PlayState::Stop,
            decreases self.rows@.len() - i,
        {
            if self.rows[i].state != PlayState::Stop {
                proof {
                    assert(first_active(self.rows@, i as int));
                    let c = choose|c: int| first_active(self.rows@, c);
                    lemma_first_active_unique(self.rows@, c, i as int);
                }
                return Some(i);
            }
            i = i + 1;
        }
        proof {
            assert forall|c: int| !first_active(self.rows@, c) by {
                if 0 <= c < self.rows@.len() {
                    assert(self.rows@[c].state == PlayState::Stop);
                }
            }
        }
        None
    }

    /// Whether "play next" is offered.
    pub fn can_play_next(&self, repeat: Repeat, shuffle: Shuffle) -> (r: bool)
        ensures
            r == can_play_next_of(self.rows().len(), current_of(self.rows()), repeat, shuffle),
    {
        if self.rows.len() == 0 {
            return false;
        }
        if repeat != Repeat::Normal || shuffle == Shuffle::Shuffle {
            return true;
        }
        match self.current() {
            Some(index) if index == self.rows.len() => false,
            Some(_) | None => true,
        }
    }

    /// Whether "play previous" is offered.
    pub fn can_play_previous(&self, repeat: Repeat, shuffle: Shuffle) -> (r: bool)
        ensures
            r == can_play_previous_of(self.rows().len(), current_of(self.rows()), repeat, shuffle),
    {
        if self.rows.len() == 0 {
            return false;
        }
        if repeat != Repeat::Normal || shuffle == Shuffle::Shuffle {
            return true;
        }
        match self.current() {
            Some(0) | None => false,
            Some(_) => true,
        }
    }

    /// Sets the state of every row: `target` gets `state`, every other row is stopped.
    fn set_only(&mut self, target: Option<usize>, state: PlayState)
        requires
            old(self).wf(),
        ensures
            final(self).wf(),
            final(self).order() == old(self).order(),
            final(self).next_uid() == old(self).next_uid(),
            restated(
                old(self).rows(),
                final(self).rows(),
                |i: int| only_state(target, state, i),
            ),
    {
        let n = self.rows.len();
        let mut i: usize = 0;
        while i < n
            invariant
                n == self.rows@.len(),
                n == old(self).rows@.len(),
                0 <= i <= n,
                self.order == old(self).order,
                self.next_uid == old(self).next_uid,
                forall|j: int|
                    0 <= j < n ==> (#[trigger] self.rows@[j]).uid == old(self).rows@[j].uid
                        && self.rows@[j].song == old(self).rows@[j].song,
                forall|j: int| 0 <= j < i ==> (#[trigger] self.rows@[j]).state == only_state(target, state, j),
            decreases n - i,
        {
            let s = match target {
                Some(t) => if t == i { state } else { PlayState::Stop },
                None => PlayState::Stop,
            };
            let ghost before = self.rows@;
            self.rows[i].state = s;
            proof {
                assert(s == only_state(target, state, i as int));
                assert forall|j: int| 0 <= j < i + 1 implies (#[trigger] self.rows@[j]).state == only_state(target, state, j) by {
                    if j < i {
                        assert(self.rows@[j] == before[j]);
                    }
                }
            }
            i = i + 1;
        }
    }

    /// Plays the song at `index` and stops every other one; returns the song to hand to the
    /// player, none for an index past the end (every song is stopped then).
    pub fn activate(&mut self, index: usize) -> (r: Option<Song>)
        requires
            old(self).wf(),
        ensures
            final(self).wf(),
            final(self).order() == old(self).order(),
            final(self).next_uid() == old(self).next_uid(),
            index < old(self).rows().len() ==> after_step(
                old(self).rows(),
                final(self).rows(),
                QueueStep::Activate(index),
            ) && (r matches Some(s) && s@ == old(self).rows()[index as int].song@),
            index >= old(self).rows().len() ==> after_step(
                old(self).rows(),
                final(self).rows(),
                QueueStep::StopAll,
            ) && r is None,
    {
        self.set_only(Some(index), PlayState::Play);
        if index < self.rows.len() {
            Some(self.rows[index].song.duplicate())
        } else {
            None
        }
    }

    /// Carries out `step`.
    fn apply(&mut self, step: QueueStep)
        requires
            old(self).wf(),
            step matches QueueStep::Activate(k) ==> k < old(self).rows().len(),
        ensures
            final(self).wf(),
            final(self).order() == old(self).order(),
            final(self).next_uid() == old(self).next_uid(),
            after_step(old(self).rows(), final(self).rows(), step),
    {
        match step {
            QueueStep::Activate(k) => {
                self.set_only(Some(k), PlayState::Play);
                proof {
                    assert forall|i: int| 0 <= i < self.rows@.len() implies (#[trigger] self.rows@[i]).state
                        == (if i == k { PlayState::Play } else { PlayState::Stop }) by {

                    }
                }
            },
            QueueStep::StopAll => {
                self.set_only(None, PlayState::Play);
                proof {
                    assert forall|i: int| 0 <= i < self.rows@.len() implies (#[trigger] self.rows@[i]).state == PlayState::Stop by {}
                }
            },
            QueueStep::Nothing => {},
        }
    }

    /// Finds where `i` stands in the shuffle order.
    fn position(&self, i: usize) -> (k: usize)
        requires
            self.wf(),
            self.order@.contains(i),
        ensures
            k == position_in(self.order@, i as int),
            k < self.order@.len(),
    {
        let ghost p = choose|k: int| 0 <= k < self.order@.len() && self.order@[k] == i;
        proof {
            lemma_position_unique(self.order@, i as int, p);
        }
        let mut k: usize = 0;
        while k < self.order.len()
            invariant
                self.wf(),
                0 <= k <= self.order@.len(),
                0 <= p < self.order@.len(),
                self.order@[p] == i,
                p == position_in(self.order@, i as int),
                forall|m: int| 0 <= m < k ==> self.order@[m] != i,
            decreases self.order@.len() - k,
        {
            if self.order[k] == i {
                proof {
                    lemma_position_unique(self.order@, i as int, k as int);
                }
                return k;
            }
            k = k + 1;
        }
        proof {
            assert(self.order@[p] != i);
        }
        0
    }

    /// Whether the row at `index` stands in the shuffle order.
    pub fn in_shuffle_order(&self, index: usize) -> (r: bool)
        ensures
            r == self.order().contains(index),
    {
        let mut k: usize = 0;
        while k < self.order.len()
            invariant
                0 <= k <= self.order@.len(),
                forall|m: int| 0 <= m < k ==> self.order@[m] != index,
            decreases self.order@.len() - k,
        {
            if self.order[k] == index {
                proof {
                    assert(self.order@[k as int] == index);
                }
                return true;
            }
            k = k + 1;
        }
        false
    }

    /// Whether "play next" is defined for the queue as it is.
    pub fn can_step_next(&self, repeat: Repeat, shuffle: Shuffle) -> (r: bool)
        ensures
            r == next_defined(self.rows().len(), current_of(self.rows()), repeat, shuffle, self.order()),
    {
        match self.current() {
            Some(i) => {
                if self.rows.len() > 0 && repeat != Repeat::One && shuffle == Shuffle::Shuffle {
                    self.in_shuffle_order(i)
                } else {
                    true
                }
            },
            None => true,
        }
    }

    /// Whether "play previous" is defined for the queue as it is.
    pub fn can_step_previous(&self, repeat: Repeat, shuffle: Shuffle) -> (r: bool)
        ensures
            r == previous_defined(self.rows().len(), current_of(self.rows()), repeat, shuffle, self.order()),
    {
        match self.current() {
            Some(i) => {
                let len = self.rows.len();
                if len > 0 && i == 0 && repeat == Repeat::Normal && shuffle == Shuffle::Sequential {
                    false
                } else if len > 0 && repeat != Repeat::One && !(i == 0 && repeat == Repeat::All) && shuffle
                    == Shuffle::Shuffle {
                    self.in_shuffle_order(i)
                } else {
                    true
                }
            },
            None => true,
        }
    }

    /// The step that "play next" takes.
    pub fn next_step(&self, repeat: Repeat, shuffle: Shuffle) -> (r: QueueStep)
        requires
            self.wf(),
            next_defined(self.rows().len(), current_of(self.rows()), repeat, shuffle, self.order()),
        ensures
            r == next_step(self.rows().len(), current_of(self.rows()), repeat, shuffle, self.order()),
            r matches QueueStep::Activate(k) ==> k < self.rows().len(),
    {
        let len = self.rows.len();
        if len == 0 {
            return QueueStep::Nothing;
        }
        match self.current() {
            None => QueueStep::Activate(0),
            Some(i) => {
                if repeat == Repeat::One {
                    QueueStep::Activate(i)
                } else if i + 1 == len && shuffle != Shuffle::Shuffle && repeat == Repeat::All {
                    QueueStep::Activate(0)
                } else if shuffle == Shuffle::Shuffle {
                    let k = self.position(i);
                    let n = self.order.len();
                    let next = if k + 1 == n { 0 } else { k + 1 };
                    proof {
                        if k + 1 == n {
                            vstd::arithmetic::div_mod::lemma_mod_self_0(n as int);
                        } else {
                            vstd::arithmetic::div_mod::lemma_small_mod((k + 1) as nat, n as nat);
                        }
                        assert(next as int == (k + 1) % (n as int));
                    }
                    QueueStep::Activate(self.order[next])
                } else if i + 1 == len {
                    QueueStep::StopAll
                } else {
                    QueueStep::Activate(i + 1)
                }
            },
        }
    }

    /// The step that "play previous" takes.
    pub fn previous_step(&self, repeat: Repeat, shuffle: Shuffle) -> (r: QueueStep)
        requires
            self.wf(),
            previous_defined(self.rows().len(), current_of(self.rows()), repeat, shuffle, self.order()),
        ensures
            r == previous_step(self.rows().len(), current_of(self.rows()), repeat, shuffle, self.order()),
            r matches QueueStep::Activate(k) ==> k < self.rows().len(),
    {
        let len = self.rows.len();
        if len == 0 {
            return QueueStep::Nothing;
        }
        match self.current() {
            None => QueueStep::Nothing,
            Some(i) => {
                if repeat == Repeat::One {
                    QueueStep::Activate(i)
                } else if i == 0 && repeat == Repeat::All {
                    QueueStep::Activate(len - 1)
                } else if shuffle == Shuffle::Shuffle {
                    let k = self.position(i);
                    if k == 0 {
                        QueueStep::Activate(self.order[self.order.len() - 1])
                    } else {
                        QueueStep::Activate(self.order[k - 1])
                    }
                } else {
                    QueueStep::Activate(i - 1)
                }
            },
        }
    }

    /// Plays the next song: the same one when it repeats, the following one in shuffle order
    /// when it shuffles, the first one after the last when it repeats the queue, and stops
    /// every song after the last one otherwise. Returns the step taken.
    pub fn play_next(&mut self, repeat: Repeat, shuffle: Shuffle) -> (r: QueueStep)
        requires
            old(self).wf(),
            next_defined(old(self).rows().len(), current_of(old(self).rows()), repeat, shuffle, old(self).order()),
        ensures
            final(self).wf(),
            r == next_step(old(self).rows().len(), current_of(old(self).rows()), repeat, shuffle, old(self).order()),
            after_step(old(self).rows(), final(self).rows(), r),
            final(self).order() == old(self).order(),
            final(self).next_uid() == old(self).next_uid(),
    {
        let step = self.next_step(repeat, shuffle);
        self.apply(step);
        step
    }

    /// Plays the previous song, by the rules of `previous_step`. Returns the step taken.
    pub fn play_previous(&mut self, repeat: Repeat, shuffle: Shuffle) -> (r: QueueStep)
        requires
            old(self).wf(),
            previous_defined(old(self).rows().len(), current_of(old(self).rows()), repeat, shuffle, old(self).order()),
        ensures
            final(self).wf(),
            r == previous_step(old(self).rows().len(), current_of(old(self).rows()), repeat, shuffle, old(self).order()),
            after_step(old(self).rows(), final(self).rows(), r),
            final(self).order() == old(self).order(),
            final(self).next_uid() == old(self).next_uid(),
    {
        let step = self.previous_step(repeat, shuffle);
        self.apply(step);
        step
    }

    /// Draws a new shuffle order.
    pub fn rerandomize(&mut self)
        requires
            uids_ok(old(self).rows(), old(self).next_uid() as int),
        ensures
            final(self).wf(),
            is_order_of(final(self).order(), final(self).rows().len()),
            final(self).rows() == old(self).rows(),
            final(self).next_uid() == old(self).next_uid(),
    {
        let n = self.rows.len();
        let mut order = identity_order(n);
        let ghost before = order@;
        let mut rng = thread_rng();
        shuffle(&mut order, &mut rng);
        proof {
            lemma_permuted_order(before, order@, n as nat);
        }
        self.order = order;
        proof {
            assert(is_order_of(self.order@, self.rows@.len()));
            assert(self.rows@ == old(self).rows());
        }
    }

    /// Turns `songs` into stopped rows numbered from the next number on.
    fn make_rows(&mut self, songs: Vec<Song>) -> (rows: Vec<QueueRow>)
        requires
            old(self).next_uid + songs@.len() <= usize::MAX,
        ensures
            rows@ == fresh_rows(songs@, old(self).next_uid as int),
            final(self).next_uid == old(self).next_uid + songs@.len(),
            final(self).rows == old(self).rows,
            final(self).order == old(self).order,
    {
        let ghost all = songs@;
        let ghost start = self.next_uid as int;
        let mut songs = songs;
        let mut rows: Vec<QueueRow> = Vec::new();
        let n = songs.len();
        let mut i: usize = 0;
        while i < n
            invariant
                0 <= i <= n,
                n == all.len(),
                songs@ == all.subrange(i as int, n as int),
                rows@ == fresh_rows(all.subrange(0, i as int), start),
                self.next_uid == start + i,
                start + n <= usize::MAX,
                self.rows == old(self).rows,
                self.order == old(self).order,
            decreases n - i,
        {
            let song = songs.remove(0);
            let row = QueueRow { uid: self.next_uid, song, state: PlayState::Stop };
            rows.push(row);
            self.next_uid = self.next_uid + 1;
            proof {
                assert(rows@ =~= fresh_rows(all.subrange(0, i + 1), start));
            }
            i = i + 1;
        }
        proof {
            assert(all.subrange(0, n as int) =~= all);
        }
        rows
    }

    /// A queue of `songs` whose song at `current` is paused (the state restored at start-up).
    pub fn from_songs(songs: Vec<Song>, current: Option<usize>) -> (r: Queue)
        requires
            songs@.len() <= usize::MAX,
        ensures
            r.wf(),
            is_order_of(r.order(), r.rows().len()),
            r.rows().len() == songs@.len(),
            forall|i: int| 0 <= i < songs@.len() ==> (#[trigger] r.rows()[i]).song == songs@[i]
                && r.rows()[i].uid == i
                && r.rows()[i].state == (if current == Some(i as usize) { PlayState::Pause } else { PlayState::Stop }),
    {
        let mut q = Queue::new();
        q.append(songs);
        q.set_current(current);
        q
    }

    /// Pauses the song at `index`, if there is one; the other rows keep their states.
    pub fn set_current(&mut self, index: Option<usize>)
        requires
            old(self).wf(),
        ensures
            final(self).wf(),
            final(self).order() == old(self).order(),
            final(self).next_uid() == old(self).next_uid(),
            index matches Some(i) ==> (i < old(self).rows().len() ==> final(self).rows() == old(self).rows().update(
                i as int,
                (QueueRow { state: PlayState::Pause, ..old(self).rows()[i as int] }),
            )),
            index matches Some(i) ==> (i >= old(self).rows().len() ==> final(self).rows() == old(self).rows()),
            index is None ==> final(self).rows() == old(self).rows(),
    {
        if let Some(i) = index {
            if i < self.rows.len() {
                self.rows[i].state = PlayState::Pause;
                proof {
                    assert(self.rows@ =~= old(self).rows@.update(
                        i as int,
                        QueueRow { state: PlayState::Pause, ..old(self).rows@[i as int] },
                    ));
                }
            }
        }
    }

    /// Gives the current song the state `state`; nothing changes when no song is current.
    pub fn new_state(&mut self, state: PlayState)
        requires
            old(self).wf(),
        ensures
            final(self).wf(),
            final(self).order() == old(self).order(),
            final(self).next_uid() == old(self).next_uid(),
            current_of(old(self).rows()) matches Some(i) ==> final(self).rows() == old(self).rows().update(
                i,
                (QueueRow { state: state, ..old(self).rows()[i] }),
            ),
            current_of(old(self).rows()) is None ==> final(self).rows() == old(self).rows(),
    {
        if self.rows.len() == 0 {
            return;
        }
        if let Some(i) = self.current() {
            self.rows[i].state = state;
            proof {
                assert(self.rows@ =~= old(self).rows@.update(
                    i as int,
                    QueueRow { state: state, ..old(self).rows@[i as int] },
                ));
            }
        }
    }

    /// Appends `songs` as stopped rows at the end and draws a new shuffle order. Returns whether
    /// the queue holds songs afterwards.
    pub fn append(&mut self, songs: Vec<Song>) -> (not_empty: bool)
        requires
            old(self).wf(),
            old(self).next_uid() + songs@.len() <= usize::MAX,
        ensures
            final(self).wf(),
            is_order_of(final(self).order(), final(self).rows().len()),
            final(self).rows() == old(self).rows() + fresh_rows(songs@, old(self).next_uid() as int),
            final(self).next_uid() == old(self).next_uid() + songs@.len(),
            not_empty == (final(self).rows().len() > 0),
    {
        let ghost s = songs@;
        let mut rows = self.make_rows(songs);
        proof {
            lemma_uids_insert(self.rows@, Seq::empty(), s, old(self).next_uid as int);
            assert(self.rows@ + Seq::<QueueRow>::empty() =~= self.rows@);
            assert(self.rows@ + fresh_rows(s, old(self).next_uid as int) + Seq::<QueueRow>::empty()
                =~= self.rows@ + fresh_rows(s, old(self).next_uid as int));
        }
        self.rows.append(&mut rows);
        self.rerandomize();
        self.rows.len() > 0
    }

    /// Inserts `songs` as stopped rows right after the current song, or at the end when no
    /// song is current, and draws a new shuffle order. Returns whether the queue holds songs
    /// afterwards.
    pub fn insert_after_current(&mut self, songs: Vec<Song>) -> (not_empty: bool)
        requires
            old(self).wf(),
            old(self).next_uid() + songs@.len() <= usize::MAX,
        ensures
            final(self).wf(),
            is_order_of(final(self).order(), final(self).rows().len()),
            final(self).next_uid() == old(self).next_uid() + songs@.len(),
            ({
                let at = match current_of(old(self).rows()) {
                    Some(i) => i + 1,
                    None => old(self).rows().len() as int,
                };
                final(self).rows() == old(self).rows().subrange(0, at) + fresh_rows(songs@, old(self).next_uid() as int)
                    + old(self).rows().subrange(at, old(self).rows().len() as int)
            }),
            not_empty == (final(self).rows().len() > 0),
    {
        let len = self.rows.len();
        let at = match self.current() {
            Some(i) => i + 1,
            None => len,
        };
        self.insert_rows_at(at, songs);
        self.rerandomize();
        self.rows.len() > 0
    }

    /// Inserts `songs` as stopped rows before index `at`; the shuffle order stays as it was.
    fn insert_rows_at(&mut self, at: usize, songs: Vec<Song>)
        requires
            old(self).wf(),
            at <= old(self).rows().len(),
            old(self).next_uid() + songs@.len() <= usize::MAX,
        ensures
            final(self).wf(),
            final(self).order() == old(self).order(),
            final(self).next_uid() == old(self).next_uid() + songs@.len(),
            final(self).rows() == old(self).rows().subrange(0, at as int) + fresh_rows(songs@, old(self).next_uid() as int)
                + old(self).rows().subrange(at as int, old(self).rows().len() as int),
    {
        let ghost s = songs@;
        let ghost start = old(self).next_uid as int;
        let mut rows = self.make_rows(songs);
        let mut tail = self.rows.split_off(at);
        proof {
            let a = old(self).rows@.subrange(0, at as int);
            let b = old(self).rows@.subrange(at as int, old(self).rows@.len() as int);
            assert(a + b =~= old(self).rows@);
            lemma_uids_insert(a, b, s, start);
        }
        self.rows.append(&mut rows);
        self.rows.append(&mut tail);
    }

    /// Inserts `songs` where they were dropped: before the row at `target`, or after it when
    /// `below` is set. The shuffle order stays as it was: the inserted songs are not in it.
    pub fn drop_insert(&mut self, target: usize, below: bool, songs: Vec<Song>)
        requires
            old(self).wf(),
            target < old(self).rows().len(),
            old(self).next_uid() + songs@.len() <= usize::MAX,
        ensures
            final(self).wf(),
            final(self).order() == old(self).order(),
            final(self).next_uid() == old(self).next_uid() + songs@.len(),
            ({
                let at = if below { target + 1 } else { target as int };
                final(self).rows() == old(self).rows().subrange(0, at) + fresh_rows(songs@, old(self).next_uid() as int)
                    + old(self).rows().subrange(at, old(self).rows().len() as int)
            }),
    {
        let len = self.rows.len();
        proof {
            assert(target < len);
        }
        let at = if below { target + 1 } else { target };
        self.insert_rows_at(at, songs);
    }

    /// Empties the queue.
    pub fn clear(&mut self)
        requires
            old(self).wf(),
        ensures
            final(self).wf(),
            is_order_of(final(self).order(), final(self).rows().len()),
            final(self).rows().len() == 0,
            final(self).next_uid() == old(self).next_uid(),
    {
        self.rows.clear();
        self.order.clear();
        proof {
            assert(is_order_of(self.order@, 0));
        }
    }

    /// Replaces the queued songs by `songs`, as stopped rows. Returns whether the queue holds
    /// songs afterwards.
    pub fn replace(&mut self, songs: Vec<Song>) -> (not_empty: bool)
        requires
            old(self).wf(),
            old(self).next_uid() + songs@.len() <= usize::MAX,
        ensures
            final(self).wf(),
            is_order_of(final(self).order(), final(self).rows().len()),
            final(self).rows() == fresh_rows(songs@, old(self).next_uid() as int),
            final(self).next_uid() == old(self).next_uid() + songs@.len(),
            not_empty == (songs@.len() > 0),
    {
        self.clear();
        let ghost cleared = self.rows();
        let r = self.append(songs);
        proof {
            assert(cleared =~= Seq::<QueueRow>::empty());
            assert(self.rows() =~= fresh_rows(songs@, old(self).next_uid() as int));
        }
        r
    }

    /// Sets `starred` on every song whose id is `id`.
    pub fn update_favorite_song(&mut self, id: &str, starred: bool)
        requires
            old(self).wf(),
        ensures
            final(self).wf(),
            final(self).order() == old(self).order(),
            final(self).next_uid() == old(self).next_uid(),
            final(self).rows().len() == old(self).rows().len(),
            forall|i: int| 0 <= i < old(self).rows().len() ==> {
                let o = #[trigger] old(self).rows()[i];
                let n = final(self).rows()[i];
                &&& n.uid == o.uid && n.state == o.state
                &&& n.song@ == (if o.song.id@ == id@ { SongView { starred: starred, ..o.song@ } } else { o.song@ })
            },
    {
        let n = self.rows.len();
        let mut i: usize = 0;
        while i < n
            invariant
                0 <= i <= n,
                n == self.rows@.len(),
                n == old(self).rows@.len(),
                self.order == old(self).order,
                self.next_uid == old(self).next_uid,
                forall|j: int| 0 <= j < n ==> (#[trigger] self.rows@[j]).uid == old(self).rows@[j].uid
                    && self.rows@[j].state == old(self).rows@[j].state,
                forall|j: int| i <= j < n ==> (#[trigger] self.rows@[j]).song == old(self).rows@[j].song,
                forall|j: int| 0 <= j < i ==> {
                    let o = #[trigger] old(self).rows@[j];
                    self.rows@[j].song@ == (if o.song.id@ == id@ { SongView { starred: starred, ..o.song@ } } else { o.song@ })
                },
            decreases n - i,
        {
            let same = crate::text::str_eq(self.rows[i].song.id.as_str(), id);
            if same {
                self.rows[i].song.starred = starred;
            }
            i = i + 1;
        }
        proof {
            assert(uids_ok(self.rows@, self.next_uid as int));
        }
    }

    /// Sets the play count of every song whose id is `id`.
    pub fn update_play_count_song(&mut self, id: &str, play_count: Option<i64>)
        requires
            old(self).wf(),
        ensures
            final(self).wf(),
            final(self).order() == old(self).order(),
            final(self).next_uid() == old(self).next_uid(),
            final(self).rows().len() == old(self).rows().len(),
            forall|i: int| 0 <= i < old(self).rows().len() ==> {
                let o = #[trigger] old(self).rows()[i];
                let n = final(self).rows()[i];
                &&& n.uid == o.uid && n.state == o.state
                &&& n.song@ == (if o.song.id@ == id@ { SongView { play_count: play_count, ..o.song@ } } else { o.song@ })
            },
    {
        let n = self.rows.len();
        let mut i: usize = 0;
        while i < n
            invariant
                0 <= i <= n,
                n == self.rows@.len(),
                n == old(self).rows@.len(),
                self.order == old(self).order,
                self.next_uid == old(self).next_uid,
                forall|j: int| 0 <= j < n ==> (#[trigger] self.rows@[j]).uid == old(self).rows@[j].uid
                    && self.rows@[j].state == old(self).rows@[j].state,
                forall|j: int| i <= j < n ==> (#[trigger] self.rows@[j]).song == old(self).rows@[j].song,
                forall|j: int| 0 <= j < i ==> {
                    let o = #[trigger] old(self).rows@[j];
                    self.rows@[j].song@ == (if o.song.id@ == id@ { SongView { play_count: play_count, ..o.song@ } } else { o.song@ })
                },
            decreases n - i,
        {
            let same = crate::text::str_eq(self.rows[i].song.id.as_str(), id);
            if same {
                self.rows[i].song.play_count = play_count;
            }
            i = i + 1;
        }
        proof {
            assert(uids_ok(self.rows@, self.next_uid as int));
        }
    }

    /// Copies of the queued songs, in queue order.
    pub fn songs(&self) -> (r: Vec<Song>)
        ensures
            r@.len() == self.rows().len(),
            forall|i: int| 0 <= i < r@.len() ==> (#[trigger] r@[i])@ == self.rows()[i].song@,
    {
        let mut r: Vec<Song> = Vec::new();
        let mut i: usize = 0;
        while i < self.rows.len()
            invariant
                0 <= i <= self.rows@.len(),
                r@.len() == i,
                forall|k: int| 0 <= k < i ==> (#[trigger] r@[k])@ == self.rows@[k].song@,
            decreases self.rows@.len() - i,
        {
            r.push(self.rows[i].song.duplicate());
            i = i + 1;
        }
        r
    }

    /// Copies of the songs at the indices `selected` that lie in the queue, in the order given.
    pub fn selected_songs(&self, selected: &Vec<usize>) -> (r: Vec<Song>)
        ensures
            r@.len() == selected@.filter(|k: usize| k < self.rows().len()).len(),
            forall|i: int| 0 <= i < r@.len() ==> (#[trigger] r@[i])@ == self.rows()[selected@.filter(|k: usize| k < self.rows().len())[i] as int].song@,
    {
        let ghost keep = |k: usize| k < self.rows@.len();
        let mut r: Vec<Song> = Vec::new();
        let mut i: usize = 0;
        while i < selected.len()
            invariant
                0 <= i <= selected@.len(),
                keep == (|k: usize| k < self.rows@.len()),
                r@.len() == selected@.subrange(0, i as int).filter(keep).len(),
                forall|m: int| 0 <= m < r@.len() ==> (#[trigger] r@[m])@ == self.rows@[selected@.subrange(0, i as int).filter(keep)[m] as int].song@,
            decreases selected@.len() - i,
        {
            let k = selected[i];
            proof {
                let s0 = selected@.subrange(0, i as int);
                assert(selected@.subrange(0, i + 1) =~= s0.push(k));
                s0.lemma_filter_push(k, keep);
            }
            if k < self.rows.len() {
                r.push(self.rows[k].song.duplicate());
            }
            i = i + 1;
        }
        proof {
            assert(selected@.subrange(0, selected@.len() as int) =~= selected@);
        }
        r
    }

    /// The index of the row numbered `uid`.
    pub fn index_of_uid(&self, uid: usize) -> (r: Option<usize>)
        ensures
            r matches Some(i) ==> i < self.rows().len() && self.rows()[i as int].uid == uid
                && forall|j: int| 0 <= j < i ==> (#[trigger] self.rows()[j]).uid != uid,
            r is None ==> forall|j: int| 0 <= j < self.rows().len() ==> (#[trigger] self.rows()[j]).uid != uid,
    {
        let mut i: usize = 0;
        while i < self.rows.len()
            invariant
                0 <= i <= self.rows@.len(),
                forall|j: int| 0 <= j < i ==> (#[trigger] self.rows@[j]).uid != uid,
            decreases self.rows@.len() - i,
        {
            if self.rows[i].uid == uid {
                return Some(i);
            }
            i = i + 1;
        }
        None
    }

    /// Plays the row numbered `uid`, if it is in the queue; returns the song to hand to the
    /// player.
    pub fn activate_uid(&mut self, uid: usize) -> (r: Option<Song>)
        requires
            old(self).wf(),
        ensures
            final(self).wf(),
            final(self).order() == old(self).order(),
            final(self).next_uid() == old(self).next_uid(),
            (exists|i: int| 0 <= i < old(self).rows().len() && old(self).rows()[i].uid == uid) ==> exists|i: int|
                0 <= i < old(self).rows().len() && old(self).rows()[i].uid == uid
                && after_step(old(self).rows(), final(self).rows(), QueueStep::Activate(i as usize))
                && (r matches Some(s) && s@ == old(self).rows()[i].song@),
            !(exists|i: int| 0 <= i < old(self).rows().len() && old(self).rows()[i].uid == uid) ==> final(self).rows()
                == old(self).rows() && r is None,
    {
        match self.index_of_uid(uid) {
            Some(i) => self.activate(i),
            None => None,
        }
    }

    /// Removes the rows whose indices are listed in `selected` and draws a new shuffle order.
    /// Returns whether the current song was among them, in which case the player stops.
    pub fn remove(&mut self, selected: &Vec<usize>) -> (stop: bool)
        requires
            old(self).wf(),
        ensures
            final(self).wf(),
            is_order_of(final(self).order(), final(self).rows().len()),
            final(self).rows() == without_indices(old(self).rows(), selected@),
            final(self).next_uid() == old(self).next_uid(),
            stop == (current_of(old(self).rows()) matches Some(c) && selected@.contains(c as usize)),
    {
        let stop = match self.current() {
            Some(c) => contains_index(selected, c),
            None => false,
        };
        let ghost orig = self.rows@;
        let mut old_rows: Vec<QueueRow> = Vec::new();
        std::mem::swap(&mut old_rows, &mut self.rows);
        let n = old_rows.len();
        let mut kept: Vec<QueueRow> = Vec::new();
        let mut i: usize = 0;
        while i < n
            invariant
                0 <= i <= n,
                n == orig.len(),
                uids_ok(orig, old(self).next_uid as int),
                old_rows@ == orig.subrange(i as int, n as int),
                kept@ == without_indices(orig.subrange(0, i as int), selected@),
                forall|m: int| 0 <= m < kept@.len() ==> exists|j: int| 0 <= j < i && (#[trigger] kept@[m]).uid == orig[j].uid,
                forall|m: int| 0 <= m < kept@.len() ==> (#[trigger] kept@[m]).uid < old(self).next_uid,
                forall|a: int, b: int| 0 <= a < kept@.len() && 0 <= b < kept@.len() && a != b ==> (#[trigger] kept@[a]).uid != (#[trigger] kept@[b]).uid,
            decreases n - i,
        {
            let row = old_rows.remove(0);
            let drop_it = contains_index(selected, i);
            proof {
                assert(orig.subrange(0, i + 1).drop_last() =~= orig.subrange(0, i as int));
                assert(row == orig[i as int]);
            }
            if !drop_it {
                proof {
                    assert forall|m: int| 0 <= m < kept@.len() implies (#[trigger] kept@[m]).uid != orig[i as int].uid by {
                        let j = choose|j: int| 0 <= j < i && kept@[m].uid == orig[j].uid;
                        assert(orig[j].uid != orig[i as int].uid);
                    }
                }
                kept.push(row);
                proof {
                    assert forall|m: int| 0 <= m < kept@.len() implies exists|j: int| 0 <= j < i + 1 && (#[trigger] kept@[m]).uid == orig[j].uid by {
                        if m == kept@.len() - 1 {
                            assert(kept@[m].uid == orig[i as int].uid);
                        } else {
                            let j = choose|j: int| 0 <= j < i && kept@[m].uid == orig[j].uid;
                        }
                    }
                }
            } else {
                proof {
                    assert forall|m: int| 0 <= m < kept@.len() implies exists|j: int| 0 <= j < i + 1 && (#[trigger] kept@[m]).uid == orig[j].uid by {
                        let j = choose|j: int| 0 <= j < i && kept@[m].uid == orig[j].uid;
                    }
                }
            }
            i = i + 1;
        }
        proof {
            assert(orig.subrange(0, n as int) =~= orig);
        }
        self.rows = kept;
        self.rerandomize();
        stop
    }

    /// Copies of the rows at `src`, numbered from the next number on, and their old numbers.
    fn copy_rows(&mut self, src: &Vec<usize>) -> (r: (Vec<QueueRow>, Vec<usize>))
        requires
            old(self).wf(),
            forall|k: int| 0 <= k < src@.len() ==> #[trigger] src@[k] < old(self).rows@.len(),
            old(self).next_uid + src@.len() <= usize::MAX,
        ensures
            final(self).rows == old(self).rows,
            final(self).order == old(self).order,
            final(self).next_uid == old(self).next_uid + src@.len(),
            view_rows(r.0@) == Seq::new(
                src@.len(),
                |k: int| ((old(self).next_uid + k) as usize, old(self).rows@[src@[k] as int].song@, old(self).rows@[src@[k] as int].state),
            ),
            forall|k: int| 0 <= k < r.0@.len() ==> (#[trigger] r.0@[k]).uid == old(self).next_uid + k,
            r.1@ == src@.map_values(|j: usize| old(self).rows@[j as int].uid),
    {
        let ghost start = self.next_uid as int;
        let mut copies: Vec<QueueRow> = Vec::new();
        let mut uids: Vec<usize> = Vec::new();
        let mut k: usize = 0;
        while k < src.len()
            invariant
                0 <= k <= src@.len(),
                self.rows == old(self).rows,
                self.order == old(self).order,
                self.next_uid == start + k,
                start == old(self).next_uid,
                start + src@.len() <= usize::MAX,
                forall|m: int| 0 <= m < src@.len() ==> #[trigger] src@[m] < self.rows@.len(),
                copies@.len() == k,
                uids@.len() == k,
                forall|m: int| 0 <= m < k ==> (#[trigger] copies@[m]).uid == start + m
                    && copies@[m].song@ == self.rows@[src@[m] as int].song@
                    && copies@[m].state == self.rows@[src@[m] as int].state,
                forall|m: int| 0 <= m < k ==> #[trigger] uids@[m] == self.rows@[src@[m] as int].uid,
            decreases src@.len() - k,
        {
            let j = src[k];
            let row = QueueRow {
                uid: self.next_uid,
                song: self.rows[j].song.duplicate(),
                state: self.rows[j].state,
            };
            uids.push(self.rows[j].uid);
            copies.push(row);
            self.next_uid = self.next_uid + 1;
            k = k + 1;
        }
        proof {
            assert(view_rows(copies@) =~= Seq::new(
                src@.len(),
                |k: int| ((start + k) as usize, self.rows@[src@[k] as int].song@, self.rows@[src@[k] as int].state),
            ));
            assert(uids@ =~= src@.map_values(|j: usize| self.rows@[j as int].uid));
        }
        (copies, uids)
    }

    /// Keeps the rows whose numbers are not listed in `uids`.
    fn keep_without_uids(rows: Vec<QueueRow>, uids: &Vec<usize>) -> (r: Vec<QueueRow>)
        ensures
            view_rows(r@) == view_rows(rows@).filter(|t: (usize, SongView, PlayState)| !uids@.contains(t.0)),
            r@ == rows@.filter(|q: QueueRow| !uids@.contains(q.uid)),
    {
        let ghost pred = |t: (usize, SongView, PlayState)| !uids@.contains(t.0);
        let ghost qpred = |q: QueueRow| !uids@.contains(q.uid);
        let ghost orig = rows@;
        let mut rows = rows;
        let n = rows.len();
        let mut kept: Vec<QueueRow> = Vec::new();
        let mut i: usize = 0;
        while i < n
            invariant
                0 <= i <= n,
                n == orig.len(),
                rows@ == orig.subrange(i as int, n as int),
                pred == (|t: (usize, SongView, PlayState)| !uids@.contains(t.0)),
                qpred == (|q: QueueRow| !uids@.contains(q.uid)),
                kept@ == orig.subrange(0, i as int).filter(qpred),
            decreases n - i,
        {
            let row = rows.remove(0);
            proof {
                assert(row == orig[i as int]);
                assert(orig.subrange(0, i + 1) =~= orig.subrange(0, i as int).push(row));
                orig.subrange(0, i as int).lemma_filter_push(row, qpred);
            }
            if !contains_index(uids, row.uid) {
                kept.push(row);
            }
            i = i + 1;
        }
        proof {
            assert(orig.subrange(0, n as int) =~= orig);
            lemma_view_filter(orig, uids@);
        }
        kept
    }

    /// Moves rows where they were dropped: the selected rows (`selected` lists their indices,
    /// each once) when the dragged row (numbered `dragged_uid`) is among them, the dragged row
    /// alone otherwise, go before the row at `target`, or after it when `below` is set. The
    /// moved rows get new numbers and keep their states; the shuffle order stays as it was.
    /// Returns the new numbers, to select the moved rows again; none when no row carries
    /// `dragged_uid` (nothing changes then).
    pub fn drop_move(&mut self, dragged_uid: usize, selected: &Vec<usize>, target: usize, below: bool) -> (r: Option<Vec<usize>>)
        requires
            old(self).wf(),
            target < old(self).rows().len(),
            selected@.no_duplicates(),
            old(self).next_uid() + selected@.len() + 1 <= usize::MAX,
        ensures
            final(self).wf(),
            final(self).order() == old(self).order(),
            final(self).rows().len() == old(self).rows().len(),
            r is None <==> forall|j: int| 0 <= j < old(self).rows().len() ==> (#[trigger] old(self).rows()[j]).uid != dragged_uid,
            r is None ==> final(self).rows() == old(self).rows(),
            r matches Some(new_uids) ==> exists|d: int| {
                &&& 0 <= d < old(self).rows().len()
                &&& old(self).rows()[d].uid == dragged_uid
                &&& {
                    let src = moved_sources(old(self).rows().len(), d, selected@);
                    let at = if below { target + 1 } else { target as int };
                    &&& view_rows(final(self).rows()) == moved_view(old(self).rows(), src, at, old(self).next_uid() as int)
                    &&& new_uids@ == Seq::new(src.len(), |k: int| (old(self).next_uid() + k) as usize)
                }
            },
    {
        let len = self.rows.len();
        let d = match self.index_of_uid(dragged_uid) {
            Some(d) => d,
            None => return None,
        };
        let src: Vec<usize> = if contains_index(selected, d) {
            in_range(selected, len)
        } else {
            vec![d]
        };
        proof {
            assert(src@ == moved_sources(len as nat, d as int, selected@));
            assert(src@.len() <= selected@.len() + 1);
        }
        let ghost old_rows = self.rows@;
        let ghost start = self.next_uid as int;
        let first_uid = self.next_uid;
        let at = if below { target + 1 } else { target };
        let (mut copies, uids) = self.copy_rows(&src);
        let ghost copies_seq = copies@;
        let mut tail = self.rows.split_off(at);
        self.rows.append(&mut copies);
        self.rows.append(&mut tail);
        let mut all: Vec<QueueRow> = Vec::new();
        std::mem::swap(&mut all, &mut self.rows);
        let ghost inserted = all@;
        let kept = Self::keep_without_uids(all, &uids);
        self.rows = kept;
        let mut new_uids: Vec<usize> = Vec::new();
        let mut k: usize = 0;
        while k < src.len()
            invariant
                0 <= k <= src@.len(),
                start + src@.len() <= usize::MAX,
                first_uid == start,
                new_uids@ == Seq::new(k as nat, |m: int| (start + m) as usize),
            decreases src@.len() - k,
        {
            new_uids.push(first_uid + k);
            proof {
                assert(new_uids@ =~= Seq::new((k + 1) as nat, |m: int| (start + m) as usize));
            }
            k = k + 1;
        }
        proof {
            let a = old_rows.subrange(0, at as int);
            let b = old_rows.subrange(at as int, old_rows.len() as int);
            assert(a + b =~= old_rows);
            assert(inserted =~= a + copies_seq + b);
            assert(view_rows(copies_seq).len() == copies_seq.len());
            assert(copies_seq.len() == src@.len());
            lemma_uids_insert_gen(a, copies_seq, b, start);
            let qpred = |q: QueueRow| !uids@.contains(q.uid);
            lemma_filter_uids_ok(inserted, qpred, start + src@.len());
            lemma_view_concat(a, copies_seq, b);
            let d_i = d as int;
            assert(old(self).rows()[d_i].uid == dragged_uid);
            if selected@.contains(d) {
                lemma_filter_keeps_distinct(selected@, |k: usize| k < len);
            }
            assert forall|k: int| 0 <= k < src@.len() implies #[trigger] src@[k] < old_rows.len() by {
                if selected@.contains(d) {
                    selected@.lemma_filter_pred(|k: usize| k < len, k);
                }
            }
            law_move_keeps_songs(old_rows, src@, at as int, start);
            assert(view_rows(self.rows@).len() == self.rows@.len());
        }
        Some(new_uids)
    }
}

/// The numbers of `x` stay distinct and below `bound` in any part of `x` that a filter keeps.
proof fn lemma_filter_uids_ok(x: Seq<QueueRow>, p: spec_fn(QueueRow) -> bool, bound: int)
    requires
        uids_ok(x, bound),
    ensures
        uids_ok(x.filter(p), bound),
    decreases x.len(),
{
    if x.len() > 0 {
        let y = x.drop_last();
        let e = x.last();
        assert(y.push(e) =~= x);
        assert(uids_ok(y, bound)) by {
            assert forall|i: int, j: int| 0 <= i < y.len() && 0 <= j < y.len() && i != j implies (#[trigger] y[i]).uid != (#[trigger] y[j]).uid by {
                assert(y[i] == x[i] && y[j] == x[j]);
            }
            assert forall|i: int| 0 <= i < y.len() implies (#[trigger] y[i]).uid < bound by {
                assert(y[i] == x[i]);
            }
        }
        lemma_filter_uids_ok(y, p, bound);
        y.lemma_filter_push(e, p);
        if p(e) {
            let fy = y.filter(p);
            assert forall|m: int| 0 <= m < fy.len() implies (#[trigger] fy[m]).uid != e.uid by {
                y.lemma_filter_contains_rev(p, fy[m]);
                let j = choose|j: int| 0 <= j < y.len() && y[j] == fy[m];
                assert(x[j] == y[j]);
                assert(x[x.len() - 1] == e);
            }
        }
    }
}

/// The values of joined rows are the joined values.
proof fn lemma_view_concat(a: Seq<QueueRow>, c: Seq<QueueRow>, b: Seq<QueueRow>)
    ensures
        view_rows(a + c + b) == view_rows(a) + view_rows(c) + view_rows(b),
{
    assert(view_rows(a + c + b) =~= view_rows(a) + view_rows(c) + view_rows(b));
}

/// Filtering rows by number and taking their values commute.
proof fn lemma_view_filter(x: Seq<QueueRow>, uids: Seq<usize>)
    ensures
        view_rows(x.filter(|q: QueueRow| !uids.contains(q.uid))) == view_rows(x).filter(
            |t: (usize, SongView, PlayState)| !uids.contains(t.0),
        ),
    decreases x.len(),
{
    let qp = |q: QueueRow| !uids.contains(q.uid);
    let tp = |t: (usize, SongView, PlayState)| !uids.contains(t.0);
    if x.len() == 0 {
        assert(x.filter(qp) =~= Seq::<QueueRow>::empty());
        assert(view_rows(x) =~= Seq::empty());
        assert(view_rows(x).filter(tp) =~= Seq::empty());
    } else {
        let y = x.drop_last();
        let e = x.last();
        assert(y.push(e) =~= x);
        lemma_view_filter(y, uids);
        y.lemma_filter_push(e, qp);
        assert(view_rows(x) =~= view_rows(y).push(row_view(e)));
        view_rows(y).lemma_filter_push(row_view(e), tp);
        if qp(e) {
            assert(view_rows(y.filter(qp).push(e)) =~= view_rows(y.filter(qp)).push(row_view(e)));
        }
    }
}

/// The indices of `v` below `len`, in order.
fn in_range(v: &Vec<usize>, len: usize) -> (r: Vec<usize>)
    ensures
        r@ == v@.filter(|k: usize| k < len),
{
    let ghost keep = |k: usize| k < len;
    let mut r: Vec<usize> = Vec::new();
    let mut i: usize = 0;
    while i < v.len()
        invariant
            0 <= i <= v@.len(),
            keep == (|k: usize| k < len),
            r@ == v@.subrange(0, i as int).filter(keep),
        decreases v@.len() - i,
    {
        let k = v[i];
        proof {
            let s0 = v@.subrange(0, i as int);
            assert(v@.subrange(0, i + 1) =~= s0.push(k));
            s0.lemma_filter_push(k, keep);
        }
        if k < len {
            r.push(k);
        }
        i = i + 1;
    }
    proof {
        assert(v@.subrange(0, v@.len() as int) =~= v@);
    }
    r
}

/// A row as values: its number, its song and its state.
pub open spec fn row_view(r: QueueRow) -> (usize, SongView, PlayState) {
    (r.uid, r.song@, r.state)
}

/// The rows of `rows` as values.
pub open spec fn view_rows(rows: Seq<QueueRow>) -> Seq<(usize, SongView, PlayState)> {
    rows.map_values(|r: QueueRow| row_view(r))
}

/// The rows a drag moves: every selected row when the dragged row is selected, the
/// dragged row alone otherwise.
pub open spec fn moved_sources(len: nat, dragged: int, selected: Seq<usize>) -> Seq<usize> {
    if selected.contains(dragged as usize) {
        selected.filter(|k: usize| k < len)
    } else {
        seq![dragged as usize]
    }
}

/// The rows after moving the rows at `src` before index `at`: copies numbered from `start` on
/// are inserted there, then the rows that were moved leave their old places.
pub open spec fn moved_view(rows: Seq<QueueRow>, src: Seq<usize>, at: int, start: int) -> Seq<(usize, SongView, PlayState)> {
    let copies = Seq::new(
        src.len(),
        |k: int| ((start + k) as usize, rows[src[k] as int].song@, rows[src[k] as int].state),
    );
    let src_uids = src.map_values(|j: usize| rows[j as int].uid);
    (view_rows(rows.subrange(0, at)) + copies + view_rows(rows.subrange(at, rows.len() as int))).filter(
        |t: (usize, SongView, PlayState)| !src_uids.contains(t.0),
    )
}

/// The rows that stay when the rows at the indices in `selected` are removed, in order.
pub open spec fn without_indices(rows: Seq<QueueRow>, selected: Seq<usize>) -> Seq<QueueRow>
    decreases rows.len(),
{
    if rows.len() == 0 {
        Seq::empty()
    } else {
        let last = rows.len() - 1;
        let front = without_indices(rows.drop_last(), selected);
        if selected.contains(last as usize) {
            front
        } else {
            front.push(rows[last])
        }
    }
}

/// Whether `x` is listed in `v`.
fn contains_index(v: &Vec<usize>, x: usize) -> (r: bool)
    ensures
        r == v@.contains(x),
{
    let mut i: usize = 0;
    while i < v.len()
        invariant
            0 <= i <= v@.len(),
            forall|j: int| 0 <= j < i ==> v@[j] != x,
        decreases v@.len() - i,
    {
        if v[i] == x {
            return true;
        }
        i = i + 1;
    }
    false
}

/// In shuffle mode without repeat, "play previous" after "play next" comes back to the song
/// that played before, whenever the song that played stands in the shuffle order.
pub proof fn law_shuffle_previous_undoes_next(order: Seq<usize>, len: nat, i: int)
    requires
        order_ok(order, len),
        len <= usize::MAX,
        0 <= i < len,
        order.contains(i as usize),
    ensures
        next_step(len, Some(i), Repeat::Normal, Shuffle::Shuffle, order) matches QueueStep::Activate(j)
            && order.contains(j) && previous_step(len, Some(j as int), Repeat::Normal, Shuffle::Shuffle, order)
            == QueueStep::Activate(i as usize),
{
    let p = choose|k: int| 0 <= k < order.len() && order[k] == i as usize;
    lemma_position_unique(order, i, p);
    let k = position_in(order, i);
    let n = order.len() as int;
    let k1 = (k + 1) % n;
    if k + 1 == n {
        vstd::arithmetic::div_mod::lemma_mod_self_0(n);
    } else {
        vstd::arithmetic::div_mod::lemma_small_mod((k + 1) as nat, n as nat);
    }
    assert(0 <= k1 < n);
    let j = order[k1];
    lemma_position_unique(order, j as int, k1);
    assert(order.contains(j));
}

/// Played in order without repeat, "play previous" after "play next" comes back to the song
/// that played before, as long as it was not the last one.
pub proof fn law_sequential_previous_undoes_next(order: Seq<usize>, len: nat, i: int)
    requires
        0 <= i,
        i + 1 < len,
    ensures
        next_step(len, Some(i), Repeat::Normal, Shuffle::Sequential, order) == QueueStep::Activate((i + 1) as usize),
        previous_step(len, Some(i + 1), Repeat::Normal, Shuffle::Sequential, order) == QueueStep::Activate(i as usize),
{
}

/// Played in order and not repeating one song, "play next" from any song but the last plays
/// the song right after it, whether the queue repeats or not; only after the last song does it
/// start over at the first (repeating the queue) or stop (not repeating).
pub proof fn law_next_in_order(order: Seq<usize>, len: nat, i: int, repeat: Repeat)
    requires
        0 <= i < len,
        repeat != Repeat::One,
    ensures
        i + 1 < len ==> next_step(len, Some(i), repeat, Shuffle::Sequential, order) == QueueStep::Activate((i + 1) as usize),
        i + 1 == len && repeat == Repeat::All ==> next_step(len, Some(i), repeat, Shuffle::Sequential, order)
            == QueueStep::Activate(0),
        i + 1 == len && repeat != Repeat::All ==> next_step(len, Some(i), repeat, Shuffle::Sequential, order)
            == QueueStep::StopAll,
{
}

/// Played in order and not repeating one song, "play previous" from any song but the first
/// plays the song right before it, whether the queue repeats or not; only from the first song
/// does a repeated queue go to its last song.
pub proof fn law_previous_in_order(order: Seq<usize>, len: nat, i: int, repeat: Repeat)
    requires
        0 <= i < len,
        repeat != Repeat::One,
    ensures
        i > 0 ==> previous_step(len, Some(i), repeat, Shuffle::Sequential, order) == QueueStep::Activate((i - 1) as usize),
        i == 0 && repeat == Repeat::All ==> previous_step(len, Some(i), repeat, Shuffle::Sequential, order)
            == QueueStep::Activate((len - 1) as usize),
{
}

/// Repeating one song, "play next" and "play previous" both play the current song again.
pub proof fn law_repeat_one_stays(order: Seq<usize>, len: nat, i: int, shuffle: Shuffle)
    requires
        0 <= i < len,
    ensures
        next_step(len, Some(i), Repeat::One, shuffle, order) == QueueStep::Activate(i as usize),
        previous_step(len, Some(i), Repeat::One, shuffle, order) == QueueStep::Activate(i as usize),
{
}

/// Repeating the queue in order, the last song is followed by the first and the first is
/// preceded by the last; without repeat, the queue stops after its last song.
pub proof fn law_queue_ends(order: Seq<usize>, len: nat)
    requires
        len > 0,
    ensures
        next_step(len, Some(len - 1), Repeat::All, Shuffle::Sequential, order) == QueueStep::Activate(0),
        previous_step(len, Some(0), Repeat::All, Shuffle::Sequential, order) == QueueStep::Activate((len - 1) as usize),
        next_step(len, Some(len - 1), Repeat::Normal, Shuffle::Sequential, order) == QueueStep::StopAll,
        next_step(len, None, Repeat::Normal, Shuffle::Sequential, order) == QueueStep::Activate(0),
{
}

/// A step of "play next" or "play previous", where it is defined, only ever activates a song
/// of the queue.
pub proof fn law_steps_stay_in_queue(order: Seq<usize>, len: nat, cur: Option<int>, repeat: Repeat, shuffle: Shuffle)
    requires
        order_ok(order, len),
        len <= usize::MAX,
        cur matches Some(i) ==> 0 <= i < len,
    ensures
        next_defined(len, cur, repeat, shuffle, order) ==> (next_step(len, cur, repeat, shuffle, order) matches QueueStep::Activate(k) ==> k < len),
        previous_defined(len, cur, repeat, shuffle, order) ==> (previous_step(len, cur, repeat, shuffle, order) matches QueueStep::Activate(k) ==> k < len),
{
    if let Some(i) = cur {
        if len > 0 && order.contains(i as usize) {
            let p = choose|k: int| 0 <= k < order.len() && order[k] == i as usize;
            lemma_position_unique(order, i, p);
            let k = position_in(order, i);
            let n = order.len() as int;
            if k + 1 == n {
                vstd::arithmetic::div_mod::lemma_mod_self_0(n);
            } else {
                vstd::arithmetic::div_mod::lemma_small_mod((k + 1) as nat, n as nat);
            }
        }
    }
}

/// After a song is activated, it is the current song.
pub proof fn law_activated_is_current(old: Seq<QueueRow>, new: Seq<QueueRow>, k: usize)
    requires
        k < old.len(),
        after_step(old, new, QueueStep::Activate(k)),
    ensures
        current_of(new) == Some(k as int),
{
    assert(first_active(new, k as int));
    let c = choose|c: int| first_active(new, c);
    lemma_first_active_unique(new, c, k as int);
}

/// After every song was stopped, no song is current.
pub proof fn law_stopped_has_no_current(old: Seq<QueueRow>, new: Seq<QueueRow>)
    requires
        after_step(old, new, QueueStep::StopAll),
    ensures
        current_of(new) is None,
{
    assert forall|c: int| !first_active(new, c) by {
        if 0 <= c < new.len() {
            assert(new[c].state == PlayState::Stop);
        }
    }
}

/// Appending songs to the queue leaves its current song as it was.
pub proof fn law_append_keeps_current(rows: Seq<QueueRow>, songs: Seq<Song>, start: int)
    ensures
        current_of(rows + fresh_rows(songs, start)) == current_of(rows),
{
    let r = rows + fresh_rows(songs, start);
    assert forall|i: int| first_active(rows, i) <==> first_active(r, i) by {
        if 0 <= i < rows.len() {
            assert forall|j: int| 0 <= j < i implies r[j] == rows[j] by {}
            assert(r[i] == rows[i]);
        }
        if rows.len() <= i < r.len() {
            assert(r[i].state == PlayState::Stop);
        }
    }
    if exists|i: int| first_active(rows, i) {
        let c = choose|i: int| first_active(rows, i);
        let d = choose|i: int| first_active(r, i);
        lemma_first_active_unique(r, c, d);
    }
}

/// Inserting songs right after the current song, or at the end when no song is current,
/// leaves the current song as it was.
pub proof fn law_insert_after_current_keeps_current(rows: Seq<QueueRow>, songs: Seq<Song>, start: int)
    ensures
        ({
            let at = match current_of(rows) {
                Some(i) => i + 1,
                None => rows.len() as int,
            };
            current_of(rows.subrange(0, at) + fresh_rows(songs, start) + rows.subrange(at, rows.len() as int))
                == current_of(rows)
        }),
{
    let at = match current_of(rows) {
        Some(i) => i + 1,
        None => rows.len() as int,
    };
    let f = fresh_rows(songs, start);
    let r = rows.subrange(0, at) + f + rows.subrange(at, rows.len() as int);
    match current_of(rows) {
        Some(c) => {
            let c = choose|i: int| first_active(rows, i);
            assert(first_active(rows, c));
            assert forall|j: int| 0 <= j < c implies (#[trigger] r[j]).state == PlayState::Stop by {
                assert(r[j] == rows[j]);
            }
            assert(r[c] == rows[c]);
            assert(first_active(r, c));
            let d = choose|i: int| first_active(r, i);
            lemma_first_active_unique(r, c, d);
        },
        None => {
            assert(rows.subrange(0, at) =~= rows);
            assert(rows.subrange(at, rows.len() as int) =~= Seq::<QueueRow>::empty());
            assert(r =~= rows + f);
            law_append_keeps_current(rows, songs, start);
        },
    }
}

/// The song that shuffle plays after `i`, `t` steps on.
pub open spec fn shuffle_walk(order: Seq<usize>, len: nat, i: int, t: nat) -> int
    decreases t,
{
    if t == 0 {
        i
    } else {
        order[(position_in(order, shuffle_walk(order, len, i, (t - 1) as nat)) + 1) % (len as int)] as int
    }
}

proof fn lemma_shuffle_walk_position(order: Seq<usize>, len: nat, i: int, t: nat)
    requires
        is_order_of(order, len),
        len <= usize::MAX,
        0 <= i < len,
    ensures
        0 <= shuffle_walk(order, len, i, t) < len,
        position_in(order, shuffle_walk(order, len, i, t)) == (position_in(order, i) + t) % (len as int),
    decreases t,
{
    lemma_in_order(order, len, i);
    if t == 0 {
        vstd::arithmetic::div_mod::lemma_small_mod(position_in(order, i) as nat, len);
    } else {
        lemma_shuffle_walk_position(order, len, i, (t - 1) as nat);
        let prev = shuffle_walk(order, len, i, (t - 1) as nat);
        let p = position_in(order, prev);
        vstd::arithmetic::div_mod::lemma_mod_bound(p + 1, len as int);
        let q = (p + 1) % (len as int);
        let w = order[q] as int;
        lemma_position_unique(order, w, q);
        vstd::arithmetic::div_mod::lemma_add_mod_noop_right(1, position_in(order, i) + t - 1, len as int);
    }
}

/// In shuffle mode, stepping "play next" from any song reaches every song of the queue
/// within as many steps as the queue has songs.
pub proof fn law_shuffle_reaches_every_song(order: Seq<usize>, len: nat, i: int, j: int)
    requires
        is_order_of(order, len),
        len <= usize::MAX,
        0 <= i < len,
        0 <= j < len,
    ensures
        exists|t: nat| t < len && shuffle_walk(order, len, i, t) == j,
{
    lemma_in_order(order, len, i);
    lemma_in_order(order, len, j);
    let pi = position_in(order, i);
    let pj = position_in(order, j);
    let t: nat = ((pj - pi + len) % (len as int)) as nat;
    vstd::arithmetic::div_mod::lemma_mod_bound(pj - pi + len, len as int);
    lemma_shuffle_walk_position(order, len, i, t);
    vstd::arithmetic::div_mod::lemma_add_mod_noop_right(pi, pj - pi + len, len as int);
    vstd::arithmetic::div_mod::lemma_mod_add_multiples_vanish(pj, len as int);
    vstd::arithmetic::div_mod::lemma_small_mod(pj as nat, len);
    let w = shuffle_walk(order, len, i, t);
    lemma_in_order(order, len, w);
    assert(order[position_in(order, w)] == w);
    assert(position_in(order, w) == pj);
}

/// The step that "play next" takes in shuffle mode without repeat is one step of the walk.
pub proof fn law_shuffle_next_is_walk(order: Seq<usize>, len: nat, i: int)
    requires
        is_order_of(order, len),
        len <= usize::MAX,
        0 <= i < len,
    ensures
        next_step(len, Some(i), Repeat::Normal, Shuffle::Shuffle, order) == QueueStep::Activate(
            shuffle_walk(order, len, i, 1) as usize,
        ),
{
    assert(shuffle_walk(order, len, i, 0) == i);
}

/// The song and the state of a row, the parts of it that a move keeps.
pub open spec fn song_state(t: (usize, SongView, PlayState)) -> (SongView, PlayState) {
    (t.1, t.2)
}

/// How often each song, with its state, occurs among some rows.
pub open spec fn songs_counted(v: Seq<(usize, SongView, PlayState)>) -> Multiset<(SongView, PlayState)> {
    v.map_values(|t: (usize, SongView, PlayState)| song_state(t)).to_multiset()
}

/// Whether a row's number is one of `uids`.
pub open spec fn numbered_in(uids: Seq<usize>) -> spec_fn((usize, SongView, PlayState)) -> bool {
    |t: (usize, SongView, PlayState)| uids.contains(t.0)
}

/// Whether a row's number is none of `uids`.
pub open spec fn numbered_outside(uids: Seq<usize>) -> spec_fn((usize, SongView, PlayState)) -> bool {
    |t: (usize, SongView, PlayState)| !uids.contains(t.0)
}

/// The numbers of the rows at the indices `src`.
pub open spec fn uids_at(rows: Seq<QueueRow>, src: Seq<usize>) -> Seq<usize> {
    src.map_values(|j: usize| rows[j as int].uid)
}

/// How often each song, with its state, occurs among the rows at the indices `src`.
pub open spec fn counted_at(rows: Seq<QueueRow>, src: Seq<usize>) -> Multiset<(SongView, PlayState)> {
    src.map_values(|j: usize| (rows[j as int].song@, rows[j as int].state)).to_multiset()
}

proof fn lemma_counted_push(v: Seq<(usize, SongView, PlayState)>, e: (usize, SongView, PlayState))
    ensures
        songs_counted(v.push(e)) == songs_counted(v).insert(song_state(e)),
{
    let f = |t: (usize, SongView, PlayState)| song_state(t);
    assert(v.push(e).map_values(f) =~= v.map_values(f).push(song_state(e)));
    v.map_values(f).to_multiset_ensures();
}

proof fn lemma_counted_add(a: Seq<(usize, SongView, PlayState)>, b: Seq<(usize, SongView, PlayState)>)
    ensures
        songs_counted(a + b) == songs_counted(a).add(songs_counted(b)),
{
    let f = |t: (usize, SongView, PlayState)| song_state(t);
    assert((a + b).map_values(f) =~= a.map_values(f) + b.map_values(f));
    vstd::seq_lib::lemma_multiset_commutative(a.map_values(f), b.map_values(f));
}

/// The rows kept by a filter and the rows it drops together count every row.
proof fn lemma_counted_split(v: Seq<(usize, SongView, PlayState)>, uids: Seq<usize>)
    ensures
        songs_counted(v) == songs_counted(v.filter(numbered_outside(uids))).add(songs_counted(v.filter(numbered_in(uids)))),
    decreases v.len(),
{
    let p = numbered_outside(uids);
    let q = numbered_in(uids);
    if v.len() == 0 {
        assert(v.filter(p) =~= Seq::<(usize, SongView, PlayState)>::empty());
        assert(v.filter(q) =~= Seq::<(usize, SongView, PlayState)>::empty());
        assert(songs_counted(v) =~= Multiset::empty());
        assert(songs_counted(v.filter(p)) =~= Multiset::empty());
        assert(songs_counted(v.filter(q)) =~= Multiset::empty());
    } else {
        let y = v.drop_last();
        let e = v.last();
        assert(y.push(e) =~= v);
        lemma_counted_split(y, uids);
        y.lemma_filter_push(e, p);
        y.lemma_filter_push(e, q);
        lemma_counted_push(y, e);
        if p(e) {
            lemma_counted_push(y.filter(p), e);
        } else {
            lemma_counted_push(y.filter(q), e);
        }
        assert(songs_counted(v) =~= songs_counted(v.filter(p)).add(songs_counted(v.filter(q))));
    }
}

/// Adding one number `u` to the numbers a filter keeps adds the row carrying it, if any.
proof fn lemma_counted_one_more(x: Seq<(usize, SongView, PlayState)>, uids: Seq<usize>, u: usize)
    requires
        !uids.contains(u),
        forall|i: int, j: int| 0 <= i < x.len() && 0 <= j < x.len() && i != j ==> (#[trigger] x[i]).0 != (#[trigger] x[j]).0,
    ensures
        (forall|i: int| 0 <= i < x.len() ==> (#[trigger] x[i]).0 != u) ==> songs_counted(x.filter(numbered_in(uids.push(u))))
            == songs_counted(x.filter(numbered_in(uids))),
        forall|i: int|
            0 <= i < x.len() && (#[trigger] x[i]).0 == u ==> songs_counted(x.filter(numbered_in(uids.push(u))))
                == songs_counted(x.filter(numbered_in(uids))).insert(song_state(x[i])),
    decreases x.len(),
{
    let q = numbered_in(uids);
    let q2 = numbered_in(uids.push(u));
    if x.len() == 0 {
        assert(x.filter(q) =~= Seq::<(usize, SongView, PlayState)>::empty());
        assert(x.filter(q2) =~= Seq::<(usize, SongView, PlayState)>::empty());
    } else {
        let y = x.drop_last();
        let e = x.last();
        assert(y.push(e) =~= x);
        assert forall|i: int, j: int| 0 <= i < y.len() && 0 <= j < y.len() && i != j implies (#[trigger] y[i]).0 != (#[trigger] y[j]).0 by {
            assert(y[i] == x[i] && y[j] == x[j]);
        }
        lemma_counted_one_more(y, uids, u);
        y.lemma_filter_push(e, q);
        y.lemma_filter_push(e, q2);
        assert(q2(e) == (q(e) || e.0 == u)) by {
            assert(uids.push(u).contains(e.0) == (uids.contains(e.0) || e.0 == u)) by {
                if uids.push(u).contains(e.0) {
                    let k = choose|k: int| 0 <= k < uids.push(u).len() && uids.push(u)[k] == e.0;
                    if k < uids.len() {
                        assert(uids[k] == e.0);
                    }
                }
                if uids.contains(e.0) {
                    let k = choose|k: int| 0 <= k < uids.len() && uids[k] == e.0;
                    assert(uids.push(u)[k] == e.0);
                }
                if e.0 == u {
                    assert(uids.push(u)[uids.len() as int] == u);
                }
            }
        }
        if e.0 == u {
            assert(!q(e));
            assert forall|i: int| 0 <= i < y.len() implies (#[trigger] y[i]).0 != u by {
                assert(y[i] == x[i]);
                assert(x[x.len() - 1] == e);
            }
            lemma_counted_push(y.filter(q2), e);
            assert forall|i: int| 0 <= i < x.len() && (#[trigger] x[i]).0 == u implies songs_counted(x.filter(q2))
                == songs_counted(x.filter(q)).insert(song_state(x[i])) by {
                if i < x.len() - 1 {
                    assert(x[i] == y[i]);
                }
            }
        } else {
            if q(e) {
                lemma_counted_push(y.filter(q2), e);
                lemma_counted_push(y.filter(q), e);
            }
            assert forall|i: int| 0 <= i < x.len() && (#[trigger] x[i]).0 == u implies songs_counted(x.filter(q2))
                == songs_counted(x.filter(q)).insert(song_state(x[i])) by {
                assert(i < x.len() - 1);
                assert(x[i] == y[i]);
                if q(e) {
                    assert(songs_counted(x.filter(q2)) =~= songs_counted(y.filter(q2)).insert(song_state(e)));
                    assert(songs_counted(x.filter(q)) =~= songs_counted(y.filter(q)).insert(song_state(e)));
                    assert(songs_counted(x.filter(q2)) =~= songs_counted(x.filter(q)).insert(song_state(x[i])));
                }
            }
            if forall|i: int| 0 <= i < x.len() ==> (#[trigger] x[i]).0 != u {
                assert forall|i: int| 0 <= i < y.len() implies (#[trigger] y[i]).0 != u by {
                    assert(y[i] == x[i]);
                }
            }
        }
    }
}

/// What a filter keeps of a list without repeats has no repeats.
proof fn lemma_filter_keeps_distinct(v: Seq<usize>, p: spec_fn(usize) -> bool)
    requires
        v.no_duplicates(),
    ensures
        v.filter(p).no_duplicates(),
    decreases v.len(),
{
    if v.len() > 0 {
        let y = v.drop_last();
        let e = v.last();
        assert(y.push(e) =~= v);
        assert(y.no_duplicates()) by {
            assert forall|i: int, j: int| 0 <= i < y.len() && 0 <= j < y.len() && i != j implies y[i] != y[j] by {
                assert(y[i] == v[i] && y[j] == v[j]);
            }
        }
        lemma_filter_keeps_distinct(y, p);
        y.lemma_filter_push(e, p);
        if p(e) {
            let f = y.filter(p);
            assert forall|i: int| 0 <= i < f.len() implies f[i] != e by {
                if f[i] == e {
                    y.lemma_filter_contains_rev(p, e);
                    let j = choose|j: int| 0 <= j < y.len() && y[j] == e;
                    assert(v[j] == v[v.len() - 1]);
                }
            }
            assert forall|i: int, j: int| 0 <= i < f.push(e).len() && 0 <= j < f.push(e).len() && i != j implies f.push(e)[i] != f.push(e)[j] by {
                if i < f.len() && j < f.len() {
                    assert(f[i] != f[j]);
                }
            }
        }
    }
}

/// A filter that keeps every row keeps the rows as they are.
proof fn lemma_filter_keeps_all(v: Seq<(usize, SongView, PlayState)>, p: spec_fn((usize, SongView, PlayState)) -> bool)
    requires
        forall|k: int| 0 <= k < v.len() ==> p(#[trigger] v[k]),
    ensures
        v.filter(p) == v,
    decreases v.len(),
{
    if v.len() == 0 {
        assert(v.filter(p) =~= v);
    } else {
        let y = v.drop_last();
        assert(y.push(v.last()) =~= v);
        assert forall|k: int| 0 <= k < y.len() implies p(#[trigger] y[k]) by {
            assert(y[k] == v[k]);
        }
        lemma_filter_keeps_all(y, p);
        y.lemma_filter_push(v.last(), p);
    }
}

/// The rows numbered as the rows at `src` count the same songs as the rows at `src`.
proof fn lemma_counted_numbered(rows: Seq<QueueRow>, src: Seq<usize>, bound: int)
    requires
        uids_ok(rows, bound),
        src.no_duplicates(),
        forall|k: int| 0 <= k < src.len() ==> #[trigger] src[k] < rows.len(),
    ensures
        songs_counted(view_rows(rows).filter(numbered_in(uids_at(rows, src)))) == counted_at(rows, src),
    decreases src.len(),
{
    let x = view_rows(rows);
    assert forall|i: int, j: int| 0 <= i < x.len() && 0 <= j < x.len() && i != j implies (#[trigger] x[i]).0 != (#[trigger] x[j]).0 by {
        assert(x[i].0 == rows[i].uid && x[j].0 == rows[j].uid);
    }
    let g = |j: usize| (rows[j as int].song@, rows[j as int].state);
    if src.len() == 0 {
        assert(x.filter(numbered_in(uids_at(rows, src))) =~= Seq::<(usize, SongView, PlayState)>::empty()) by {
            let f = x.filter(numbered_in(uids_at(rows, src)));
            if f.len() > 0 {
                x.lemma_filter_pred(numbered_in(uids_at(rows, src)), 0);
            }
        }
        assert(songs_counted(Seq::<(usize, SongView, PlayState)>::empty()) =~= Multiset::empty());
        assert(src.map_values(g) =~= Seq::<(SongView, PlayState)>::empty());
        assert(counted_at(rows, src) =~= Multiset::empty());
    } else {
        let s0 = src.drop_last();
        let s = src.last();
        assert(s0.push(s) =~= src);
        assert(s0.no_duplicates());
        assert forall|k: int| 0 <= k < s0.len() implies #[trigger] s0[k] < rows.len() by {
            assert(s0[k] == src[k]);
        }
        lemma_counted_numbered(rows, s0, bound);
        let u = rows[s as int].uid;
        assert(uids_at(rows, src) =~= uids_at(rows, s0).push(u));
        assert(!uids_at(rows, s0).contains(u)) by {
            if uids_at(rows, s0).contains(u) {
                let k = choose|k: int| 0 <= k < uids_at(rows, s0).len() && uids_at(rows, s0)[k] == u;
                assert(rows[s0[k] as int].uid == u);
                assert(src[k] == s0[k]);
                assert(src[src.len() - 1] == s);
                assert(s0[k] == s);
            }
        }
        lemma_counted_one_more(x, uids_at(rows, s0), u);
        assert(x[s as int].0 == u);
        assert(src.map_values(g) =~= s0.map_values(g).push(g(s)));
        s0.map_values(g).to_multiset_ensures();
    }
}

/// A move neither loses nor duplicates songs: when the moved indices are distinct and lie in
/// the queue, the rows after the move hold the same songs, with the same states, as often
/// as before.
pub proof fn law_move_keeps_songs(rows: Seq<QueueRow>, src: Seq<usize>, at: int, start: int)
    requires
        uids_ok(rows, start),
        src.no_duplicates(),
        forall|k: int| 0 <= k < src.len() ==> #[trigger] src[k] < rows.len(),
        0 <= at <= rows.len(),
        0 <= start,
        start + src.len() <= usize::MAX,
    ensures
        songs_counted(moved_view(rows, src, at, start)) == songs_counted(view_rows(rows)),
        moved_view(rows, src, at, start).len() == rows.len(),
{
    let a = rows.subrange(0, at);
    let b = rows.subrange(at, rows.len() as int);
    assert(a + b =~= rows);
    let copies = Seq::new(
        src.len(),
        |k: int| ((start + k) as usize, rows[src[k] as int].song@, rows[src[k] as int].state),
    );
    let src_uids = src.map_values(|j: usize| rows[j as int].uid);
    assert(src_uids == uids_at(rows, src));
    let p = numbered_outside(src_uids);
    let q = numbered_in(src_uids);
    let va = view_rows(a);
    let vb = view_rows(b);
    assert(view_rows(rows) =~= va + vb);
    let pp = |t: (usize, SongView, PlayState)| !src_uids.contains(t.0);
    assert(pp == p);
    assert(moved_view(rows, src, at, start) == (va + copies + vb).filter(p));
    Seq::filter_distributes_over_add(va + copies, vb, p);
    Seq::filter_distributes_over_add(va, copies, p);
    Seq::filter_distributes_over_add(va, vb, p);
    assert(copies.filter(p) == copies) by {
        assert forall|k: int| 0 <= k < copies.len() implies p(#[trigger] copies[k]) by {
            if src_uids.contains(copies[k].0) {
                let m = choose|m: int| 0 <= m < src_uids.len() && src_uids[m] == copies[k].0;
                assert(rows[src[m] as int].uid < start);
            }
        }
        lemma_filter_keeps_all(copies, p);
    }
    lemma_counted_add(va.filter(p) + copies, vb.filter(p));
    lemma_counted_add(va.filter(p), copies);
    lemma_counted_add(va.filter(p), vb.filter(p));
    lemma_counted_split(view_rows(rows), src_uids);
    lemma_counted_numbered(rows, src, start);
    let f = |t: (usize, SongView, PlayState)| song_state(t);
    let g = |j: usize| (rows[j as int].song@, rows[j as int].state);
    assert(copies.map_values(f) =~= src.map_values(g));
    assert(songs_counted(moved_view(rows, src, at, start)) =~= songs_counted(view_rows(rows)));
    moved_view(rows, src, at, start).map_values(f).to_multiset_ensures();
    view_rows(rows).map_values(f).to_multiset_ensures();
}

} // verus!
