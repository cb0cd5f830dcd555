//! The owner of all images during a session: which variants are handed out
//! to be processed, taking them back when they are done, and the cursor the
//! user moves over the grid of images and commands.
//!
//! Work runs elsewhere. A variant handed out in a `Job` leaves its slot
//! empty until `complete` puts it back, so no cell is ever processed twice
//! at once.

use vstd::prelude::*;
use crate::img::{fresh_item, ImgError, ImgItem, ImgItemView, ProcessItem, ProcessItemView, ProcessingState};
use crate::transaction::{DoubleMove, Stage};
use crate::utils::PathKind;
use crate::paths::opt_view;
use crate::processing_order::{distance, in_window, lemma_window_exactly_once, Closest2D};
use crate::utils::views;
use vstd::seq_lib::to_multiset_contains;

verus! {

/// How far from the cursor, in images and in commands, work is scheduled.
pub const NEARBY: usize = 5;

/// A variant handed out to be processed: the cell it belongs to, the
/// variant, the source image and the command template.
#[derive(Debug)]
pub struct Job {
    pub image_index: usize,
    pub cmd_index: usize,
    pub item: ProcessItem,
    pub source: String,
    pub cmd: String,
}

/// What a dispatcher holds, as plain values.
#[verifier::ext_equal]
pub struct DispatcherView {
    pub imgs: Seq<ImgItemView>,
    pub cmds: Seq<Seq<char>>,
    pub index: int,
    pub cmd_index: int,
}

impl DispatcherView {
    /// Every image is well formed with one slot per command, and the cursor
    /// stands on a cell (or at zero along an empty side).
    pub open spec fn wf(self) -> bool {
        &&& forall|i: int|
            0 <= i < self.imgs.len() ==> #[trigger] self.imgs[i].wf() && self.imgs[i].processed.len()
                == self.cmds.len()
        &&& 0 <= self.index && (self.index < self.imgs.len() || (self.index == 0
            && self.imgs.len() == 0))
        &&& 0 <= self.cmd_index && (self.cmd_index < self.cmds.len() || (self.cmd_index == 0
            && self.cmds.len() == 0))
    }

    /// The slot of cell `(i, c)`.
    pub open spec fn slot(self, i: int, c: int) -> Option<ProcessItemView> {
        self.imgs[i].processed[c]
    }

    /// Cell `(i, c)` exists and lies within `NEARBY` of the cursor along
    /// both axes.
    pub open spec fn near(self, i: int, c: int) -> bool {
        &&& 0 <= i < self.imgs.len()
        &&& 0 <= c < self.cmds.len()
        &&& distance(i, self.index) <= NEARBY
        &&& distance(c, self.cmd_index) <= NEARBY
    }

    /// Cell `(i, c)` holds a variant that is not processed yet.
    pub open spec fn waiting(self, i: int, c: int) -> bool {
        &&& self.slot(i, c) is Some
        &&& self.slot(i, c)->Some_0.state == ProcessingState::NotProcessed
    }

    /// The image under the cursor.
    pub open spec fn current(self) -> ImgItemView {
        self.imgs[self.index]
    }

    /// The dispatcher with image `i` replaced by `img`.
    pub open spec fn with_img(self, i: int, img: ImgItemView) -> DispatcherView {
        DispatcherView { imgs: self.imgs.update(i, img), ..self }
    }

    /// The dispatcher once the waiting variants of the cells for which
    /// `chosen` holds have been handed out.
    pub open spec fn taken(self, chosen: spec_fn(int, int) -> bool) -> DispatcherView {
        DispatcherView {
            imgs: Seq::new(
                self.imgs.len(),
                |i: int|
                    ImgItemView {
                        processed: Seq::new(
                            self.imgs[i].processed.len(),
                            |c: int|
                                if chosen(i, c) && self.waiting(i, c) {
                                    None
                                } else {
                                    self.imgs[i].processed[c]
                                },
                        ),
                        ..self.imgs[i]
                    },
            ),
            ..self
        }
    }
}

/// Handing out variants keeps every image well formed: a chosen variant is
/// processed, so it is never handed out.
proof fn lemma_taken_wf(v: DispatcherView, chosen: spec_fn(int, int) -> bool)
    requires
        v.wf(),
    ensures
        v.taken(chosen).wf(),
{
    let t = v.taken(chosen);
    assert forall|i: int| 0 <= i < t.imgs.len() implies #[trigger] t.imgs[i].wf()
        && t.imgs[i].processed.len() == t.cmds.len() by {
        let a = v.imgs[i];
        let b = t.imgs[i];
        assert(a.wf());
        assert forall|c: int| #[trigger] b.validated_at(c) <==> a.validated_at(c) by {
            if a.validated_at(c) {
                assert(a.processed[c]->Some_0.consistent());
            }
        }
        assert forall|c: int|
            0 <= c < b.processed.len() && #[trigger] b.processed[c] is Some implies b.processed[c]->Some_0.consistent() by {
            assert(a.processed[c] is Some);
        }
        if a.has_validated() {
            let k = choose|k: int| a.validated_at(k);
            assert(b.validated_at(k));
        }
        if b.has_validated() {
            let k = choose|k: int| b.validated_at(k);
            assert(a.validated_at(k));
        }
    }
}

/// A cell is never handed out twice at once: once the waiting variants near
/// the cursor have been handed out, each cell they came from is empty and
/// holds no waiting variant, so no later scheduling (which looks only at
/// waiting variants, wherever the cursor stands) hands it out again until a
/// variant is put back.
pub proof fn lemma_handed_out_cell_is_empty(v: DispatcherView, i: int, c: int)
    requires
        v.wf(),
        v.near(i, c),
        v.waiting(i, c),
    ensures
        v.taken(|x: int, y: int| v.near(x, y)).slot(i, c) is None,
        !v.taken(|x: int, y: int| v.near(x, y)).waiting(i, c),
{
    assert(v.imgs[i].wf() && v.imgs[i].processed.len() == v.cmds.len());
}

/// The images of a session, the command templates, and the cursor.
#[derive(Debug)]
pub struct Dispatcher {
    imgs: Vec<ImgItem>,
    cmds: Vec<String>,
    index: usize,
    cmd_index: usize,
}

impl View for Dispatcher {
    type V = DispatcherView;

    closed spec fn view(&self) -> DispatcherView {
        DispatcherView {
            imgs: self.imgs@.map_values(|x: ImgItem| x@),
            cmds: views(self.cmds@),
            index: self.index as int,
            cmd_index: self.cmd_index as int,
        }
    }
}

impl Dispatcher {
    /// A session over the images at `img_paths`, each with one fresh variant
    /// per command of `cmds`, with the cursor on the first cell.
    pub fn new(img_paths: &Vec<String>, cmds: Vec<String>) -> (r: Dispatcher)
        ensures
            r@.wf(),
            r@.cmds == views(cmds@),
            r@.index == 0,
            r@.cmd_index == 0,
            r@.imgs.len() == img_paths@.len(),
            forall|i: int|
                0 <= i < img_paths@.len() ==> (#[trigger] r@.imgs[i]).source == img_paths@[i]@
                    && r@.imgs[i].deleted is None && r@.imgs[i].processed == Seq::new(
                    cmds@.len(),
                    |k: int| Some(fresh_item()),
                ),
    {
        let mut imgs: Vec<ImgItem> = Vec::new();
        let n = img_paths.len();
        let mut k: usize = 0;
        while k < n
            invariant
                k <= n,
                n == img_paths@.len(),
                imgs@.len() == k,
                forall|i: int|
                    0 <= i < k ==> (#[trigger] imgs@[i])@.wf() && imgs@[i]@.source
                        == img_paths@[i]@ && imgs@[i]@.deleted is None && imgs@[i]@.processed
                        == Seq::new(cmds@.len(), |c: int| Some(fresh_item())),
            decreases n - k,
        {
            imgs.push(ImgItem::new(img_paths[k].as_str(), cmds.len()));
            k = k + 1;
        }
        Dispatcher { imgs, cmds, index: 0, cmd_index: 0 }
    }

    pub fn index(&self) -> (r: usize)
        ensures
            r == self@.index,
    {
        self.index
    }

    pub fn cmd_index(&self) -> (r: usize)
        ensures
            r == self@.cmd_index,
    {
        self.cmd_index
    }

    pub fn imgs_len(&self) -> (r: usize)
        ensures
            r == self@.imgs.len(),
    {
        self.imgs.len()
    }

    pub fn cmds_len(&self) -> (r: usize)
        ensures
            r == self@.cmds.len(),
    {
        self.cmds.len()
    }

    /// The image at `i`.
    pub fn img(&self, i: usize) -> (r: &ImgItem)
        requires
            i < self@.imgs.len(),
        ensures
            r@ == self@.imgs[i as int],
    {
        &self.imgs[i]
    }

    /// The command template at `c`.
    pub fn cmd(&self, c: usize) -> (r: &str)
        requires
            c < self@.cmds.len(),
        ensures
            r@ == self@.cmds[c as int],
    {
        self.cmds[c].as_str()
    }

    fn cursor_window(&self) -> (r: (usize, usize, usize, usize))
        requires
            self@.wf(),
            self@.imgs.len() > 0,
            self@.cmds.len() > 0,
        ensures
            r.0 as int == if self.index >= NEARBY { self.index - NEARBY } else { 0 },
            r.1 as int == if self.index + NEARBY < self@.imgs.len() {
                self.index + NEARBY
            } else {
                self@.imgs.len() - 1
            },
            r.2 as int == if self.cmd_index >= NEARBY { self.cmd_index - NEARBY } else { 0 },
            r.3 as int == if self.cmd_index + NEARBY < self@.cmds.len() {
                self.cmd_index + NEARBY
            } else {
                self@.cmds.len() - 1
            },
    {
        let n = self.imgs.len();
        let m = self.cmds.len();
        let i_min = if self.index >= NEARBY { self.index - NEARBY } else { 0 };
        let i_max = if n >= NEARBY && self.index < n - NEARBY { self.index + NEARBY } else { n - 1 };
        let j_min = if self.cmd_index >= NEARBY { self.cmd_index - NEARBY } else { 0 };
        let j_max = if m >= NEARBY && self.cmd_index < m - NEARBY { self.cmd_index + NEARBY } else { m - 1 };
        (i_min, i_max, j_min, j_max)
    }

    /// Hands out every variant near the cursor that is not processed yet,
    /// closest cells first: each leaves its slot empty and comes back in a
    /// `Job`, one per cell.
    pub fn schedule_nearby(&mut self) -> (jobs: Vec<Job>)
        requires
            old(self)@.wf(),
        ensures
            final(self)@.wf(),
            final(self)@ == old(self)@.taken(|i: int, c: int| old(self)@.near(i, c)),
            forall|k: int|
                0 <= k < jobs@.len() ==> {
                    let jb = #[trigger] jobs@[k];
                    let (i, c) = (jb.image_index as int, jb.cmd_index as int);
                    &&& old(self)@.near(i, c)
                    &&& old(self)@.waiting(i, c)
                    &&& old(self)@.slot(i, c) == Some(jb.item@)
                    &&& jb.source@ == old(self)@.imgs[i].source
                    &&& jb.cmd@ == old(self)@.cmds[c]
                },
            forall|i: int, c: int|
                old(self)@.near(i, c) && old(self)@.waiting(i, c) ==> exists|k: int|
                    0 <= k < jobs@.len() && #[trigger] jobs@[k].image_index == i && jobs@[k].cmd_index
                        == c,
            forall|k1: int, k2: int|
                0 <= k1 < jobs@.len() && 0 <= k2 < jobs@.len() && #[trigger] jobs@[k1].image_index
                    == #[trigger] jobs@[k2].image_index && jobs@[k1].cmd_index == jobs@[k2].cmd_index
                    ==> k1 == k2,
    {
        let ghost old_v = self@;
        let mut jobs: Vec<Job> = Vec::new();
        if self.imgs.len() == 0 || self.cmds.len() == 0 {
            assert(old_v.taken(|i: int, c: int| old_v.near(i, c)) =~~= old_v);
            return jobs;
        }
        let (i_min, i_max, j_min, j_max) = self.cursor_window();
        let ghost (ii, imin, imax, jj, jmin, jmax) = (
            self.index as int,
            i_min as int,
            i_max as int,
            self.cmd_index as int,
            j_min as int,
            j_max as int,
        );
        let mut it = Closest2D::new(self.index, i_min, i_max, self.cmd_index, j_min, j_max);
        let ghost mut seen: Set<(int, int)> = Set::empty();
        proof {
            assert forall|e: (usize, usize, usize)| #[trigger] it@.contains(e) implies in_window(
                e,
                ii,
                imin,
                imax,
                jj,
                jmin,
                jmax,
            ) by {
                to_multiset_contains(it@, e);
                lemma_window_exactly_once(ii, imin, imax, jj, jmin, jmax, e);
            }
            assert forall|i: int, c: int| old_v.near(i, c) implies #[trigger] it@.contains(
                (i as usize, c as usize, (distance(i, ii) + distance(c, jj)) as usize),
            ) by {
                let e = (i as usize, c as usize, (distance(i, ii) + distance(c, jj)) as usize);
                to_multiset_contains(it@, e);
                lemma_window_exactly_once(ii, imin, imax, jj, jmin, jmax, e);
            }
            assert(old_v.taken(|i: int, c: int| seen.contains((i, c))) =~~= old_v);
        }
        let n_imgs = self.imgs.len();
        let n_cmds = self.cmds.len();
        assert(old_v.imgs.len() == n_imgs && old_v.cmds.len() == n_cmds);
        while !it.is_empty()
            invariant
                old_v.wf(),
                old_v.imgs.len() <= usize::MAX,
                old_v.cmds.len() <= usize::MAX,
                ii == old_v.index && jj == old_v.cmd_index,
                self.imgs@.len() == old_v.imgs.len(),
                self.cmds@.len() == old_v.cmds.len(),
                self@ == old_v.taken(|i: int, c: int| seen.contains((i, c))),
                forall|x: (int, int)| #[trigger] seen.contains(x) ==> old_v.near(x.0, x.1),
                forall|e: (usize, usize, usize)| #[trigger]
                    it@.contains(e) ==> in_window(e, ii, imin, imax, jj, jmin, jmax),
                forall|i: int, c: int|
                    old_v.near(i, c) ==> seen.contains((i, c)) || #[trigger] it@.contains(
                        (i as usize, c as usize, (distance(i, ii) + distance(c, jj)) as usize),
                    ),
                imin == (if ii >= NEARBY { ii - NEARBY } else { 0 }),
                imax == (if ii + NEARBY < old_v.imgs.len() { ii + NEARBY } else { old_v.imgs.len() - 1 }),
                jmin == (if jj >= NEARBY { jj - NEARBY } else { 0 }),
                jmax == (if jj + NEARBY < old_v.cmds.len() { jj + NEARBY } else { old_v.cmds.len() - 1 }),
                forall|k: int|
                    0 <= k < jobs@.len() ==> {
                        let jb = #[trigger] jobs@[k];
                        let (i, c) = (jb.image_index as int, jb.cmd_index as int);
                        &&& seen.contains((i, c))
                        &&& old_v.near(i, c)
                        &&& old_v.waiting(i, c)
                        &&& old_v.slot(i, c) == Some(jb.item@)
                        &&& jb.source@ == old_v.imgs[i].source
                        &&& jb.cmd@ == old_v.cmds[c]
                    },
                forall|i: int, c: int|
                    seen.contains((i, c)) && old_v.waiting(i, c) ==> exists|k: int|
                        0 <= k < jobs@.len() && #[trigger] jobs@[k].image_index == i
                            && jobs@[k].cmd_index == c,
                forall|k1: int, k2: int|
                    0 <= k1 < jobs@.len() && 0 <= k2 < jobs@.len() && #[trigger] jobs@[k1].image_index
                        == #[trigger] jobs@[k2].image_index && jobs@[k1].cmd_index
                        == jobs@[k2].cmd_index ==> k1 == k2,
            decreases it@.len(),
        {
            let ghost before_it = it@;
            let ghost before = self@;
            let cell = it.next();
            let (i, c) = cell.unwrap();
            assert(before_it.contains(before_it[0]));
            assert(old_v.near(i as int, c as int));
            proof {
                lemma_taken_wf(old_v, |x: int, y: int| seen.contains((x, y)));
            }
            assert(self@.imgs[i as int] == self.imgs@[i as int]@);
            let ghost imgs_before = self.imgs@;
            let ghost img_before = self.imgs@[i as int]@;
            let taken = self.imgs[i].take_for_processing(c);
            let ghost img_after = self.imgs@[i as int]@;
            assert(self.imgs@ == imgs_before.update(i as int, self.imgs@[i as int]));
            assert(self@.imgs =~= before.imgs.update(i as int, img_after));
            let ghost jobs_before = jobs@;
            assert(i == before_it[0].0 && c == before_it[0].1);
            match taken {
                Some(item) => {
                    let source = self.imgs[i].source().to_owned();
                    let cmd = self.cmds[c].clone();
                    jobs.push(Job { image_index: i, cmd_index: c, item, source, cmd });
                },
                None => {},
            }
            proof {
                let ghost new_seen = seen.insert((i as int, c as int));
                let target = old_v.taken(|x: int, y: int| new_seen.contains((x, y)));
                assert forall|x: int| 0 <= x < self@.imgs.len() implies #[trigger] self@.imgs[x]
                    =~~= target.imgs[x] by {
                    if x == i as int {
                        assert(self@.imgs[x].processed =~= target.imgs[x].processed);
                    } else {
                        assert(self@.imgs[x] == before.imgs[x]);
                        assert(self@.imgs[x].processed =~= target.imgs[x].processed);
                    }
                }
                assert(self@ =~~= target);
                assert forall|x: int, y: int|
                    new_seen.contains((x, y)) && old_v.waiting(x, y) implies exists|k: int|
                    0 <= k < jobs@.len() && #[trigger] jobs@[k].image_index == x
                        && jobs@[k].cmd_index == y by {
                    if x == i && y == c && !seen.contains((x, y)) {
                        assert(img_before.processed[c as int] == old_v.slot(x, y));
                        assert(jobs@[jobs@.len() - 1].image_index == x);
                    } else {
                        assert(seen.contains((x, y)));
                        let k = choose|k: int|
                            0 <= k < jobs_before.len() && #[trigger] jobs_before[k].image_index == x
                                && jobs_before[k].cmd_index == y;
                        assert(jobs@[k] == jobs_before[k]);
                    }
                }
                assert forall|e: (usize, usize, usize)| #[trigger] it@.contains(e) implies before_it.contains(e) by {
                    let k = choose|k: int| 0 <= k < it@.len() && it@[k] == e;
                    assert(before_it[k + 1] == e);
                }
                assert forall|x: int, y: int| old_v.near(x, y) implies new_seen.contains((x, y))
                    || #[trigger] it@.contains(
                    (x as usize, y as usize, (distance(x, ii) + distance(y, jj)) as usize),
                ) by {
                    let e = (x as usize, y as usize, (distance(x, ii) + distance(y, jj)) as usize);
                    if !new_seen.contains((x, y)) {
                        assert(seen.contains((x, y)) || before_it.contains(e));
                        if before_it.contains(e) {
                            let k = choose|k: int| 0 <= k < before_it.len() && before_it[k] == e;
                            if k == 0 {
                                assert(x as usize as int == x && y as usize as int == y);
                                assert(x == i as int && y == c as int);
                            }
                            assert(it@[k - 1] == e);
                        }
                    }
                }
                seen = new_seen;
            }
        }
        proof {
            assert forall|i: int, c: int| old_v.near(i, c) implies #[trigger] seen.contains((i, c)) by {
                let e = (i as usize, c as usize, (distance(i, ii) + distance(c, jj)) as usize);
                if !seen.contains((i, c)) {
                    assert(it@.contains(e));
                }
            }
            assert(self@ =~~= old_v.taken(|i: int, c: int| old_v.near(i, c)));
            lemma_taken_wf(old_v, |i: int, c: int| old_v.near(i, c));
        }
        jobs
    }

    /// Puts back a processed variant into its cell `(image_index,
    /// cmd_index)`, which must be empty. Returns whether that cell is the one
    /// under the cursor, so that the caller knows to show it anew. A variant
    /// the cell refuses is handed back.
    pub fn complete(&mut self, image_index: usize, cmd_index: usize, item: ProcessItem) -> (r:
        Result<bool, ProcessItem>)
        requires
            old(self)@.wf(),
        ensures
            final(self)@.wf(),
            ({
                let before = old(self)@;
                let (i, c) = (image_index as int, cmd_index as int);
                if i < before.imgs.len() && c < before.cmds.len() && before.slot(i, c) is None
                    && item@.processed_path is None {
                    &&& r == Ok::<bool, ProcessItem>(i == before.index && c == before.cmd_index)
                    &&& final(self)@ == before.with_img(
                        i,
                        ImgItemView {
                            processed: before.imgs[i].processed.update(c, Some(item@)),
                            ..before.imgs[i]
                        },
                    )
                } else {
                    r matches Err(p) && p@ == item@ && final(self)@ == before
                }
            }),
    {
        if image_index >= self.imgs.len() {
            return Err(item);
        }
        let ghost before = self@;
        let ghost imgs_before = self.imgs@;
        assert(before.imgs[image_index as int] == self.imgs@[image_index as int]@);
        assert(before.imgs[image_index as int].wf());
        let r = self.imgs[image_index].put_back(cmd_index, item);
        assert(self.imgs@ == imgs_before.update(image_index as int, self.imgs@[image_index as int]));
        match r {
            Ok(()) => {
                assert(self@ =~~= before.with_img(
                    image_index as int,
                    self.imgs@[image_index as int]@,
                ));
                Ok(image_index == self.index && cmd_index == self.cmd_index)
            },
            Err(p) => {
                assert(self@ =~~= before);
                Err(p)
            },
        }
    }

    /// Moves the cursor to the next image, if there is one.
    pub fn next_image(&mut self) -> (moved: bool)
        requires
            old(self)@.wf(),
        ensures
            final(self)@.wf(),
            moved == (old(self)@.index + 1 < old(self)@.imgs.len()),
            final(self)@ == (DispatcherView {
                index: if moved { old(self)@.index + 1 } else { old(self)@.index },
                ..old(self)@
            }),
    {
        let n = self.imgs.len();
        if n > 0 && self.index < n - 1 {
            self.index = self.index + 1;
            true
        } else {
            false
        }
    }

    /// Moves the cursor to the previous image, if there is one.
    pub fn prev_image(&mut self) -> (moved: bool)
        requires
            old(self)@.wf(),
        ensures
            final(self)@.wf(),
            moved == (old(self)@.index > 0),
            final(self)@ == (DispatcherView {
                index: if moved { old(self)@.index - 1 } else { old(self)@.index },
                ..old(self)@
            }),
    {
        if self.index > 0 {
            self.index = self.index - 1;
            true
        } else {
            false
        }
    }

    /// Moves the cursor to the next command, if there is one.
    pub fn next_cmd(&mut self) -> (moved: bool)
        requires
            old(self)@.wf(),
        ensures
            final(self)@.wf(),
            moved == (old(self)@.cmd_index + 1 < old(self)@.cmds.len()),
            final(self)@ == (DispatcherView {
                cmd_index: if moved { old(self)@.cmd_index + 1 } else { old(self)@.cmd_index },
                ..old(self)@
            }),
    {
        let n = self.cmds.len();
        if n > 0 && self.cmd_index < n - 1 {
            self.cmd_index = self.cmd_index + 1;
            true
        } else {
            false
        }
    }

    /// Moves the cursor to the previous command, if there is one.
    pub fn prev_cmd(&mut self) -> (moved: bool)
        requires
            old(self)@.wf(),
        ensures
            final(self)@.wf(),
            moved == (old(self)@.cmd_index > 0),
            final(self)@ == (DispatcherView {
                cmd_index: if moved { old(self)@.cmd_index - 1 } else { old(self)@.cmd_index },
                ..old(self)@
            }),
    {
        if self.cmd_index > 0 {
            self.cmd_index = self.cmd_index - 1;
            true
        } else {
            false
        }
    }

    /// The file that shows the original of the image under the cursor: its
    /// moved copy once a variant is validated, else the source itself.
    pub fn source_path(&self) -> (r: Option<String>)
        requires
            self@.wf(),
        ensures
            self@.imgs.len() == 0 ==> r is None,
            self@.imgs.len() > 0 ==> opt_view(r) == Some(
                match self@.current().deleted {
                    Some(d) => d,
                    None => self@.current().source,
                },
            ),
    {
        if self.imgs.len() == 0 {
            return None;
        }
        let img = &self.imgs[self.index];
        match img.deleted() {
            Some(d) => Some(d),
            None => Some(img.source().to_owned()),
        }
    }

    /// The file that shows the variant under the cursor: the validated
    /// variant of the image if there is one, else the output of the current
    /// command if it is there.
    pub fn processed_path(&self) -> (r: Option<String>)
        requires
            self@.wf(),
        ensures
            self@.imgs.len() == 0 ==> r is None,
            self@.imgs.len() > 0 && self@.current().has_validated() ==> opt_view(r)
                == self@.current().processed[self@.current().validated_index()]->Some_0.processed_path,
            self@.imgs.len() > 0 && !self@.current().has_validated() ==> opt_view(r) == if self@.cmd_index
                < self@.cmds.len() && self@.current().processed[self@.cmd_index] is Some {
                self@.current().processed[self@.cmd_index]->Some_0.tmp_path
            } else {
                None
            },
    {
        if self.imgs.len() == 0 {
            return None;
        }
        let img = &self.imgs[self.index];
        assert(self@.current() == img@);
        assert(self@.imgs[self.index as int] == img@);
        assert(self@.imgs[self.index as int].wf());
        match img.get_validated() {
            Some(p) => {
                let ghost k = choose|k: int| img@.validated_at(k) && img@.processed[k] == Some(p@);
                assert(img@.validated_at(img@.validated_index()));
                assert(k == img@.validated_index());
                p.processed_path()
            },
            None => {
                if self.cmd_index < self.cmds.len() {
                    match img.process_item(self.cmd_index) {
                        Some(p) => p.tmp_path(),
                        None => None,
                    }
                } else {
                    None
                }
            },
        }
    }

    /// Prepares the validation of the variant under the cursor; see
    /// `ImgItem::validate`.
    pub fn validate_current(&self, trash_directory: &str, trash_kind: PathKind) -> (r: Result<
        DoubleMove,
        ImgError,
    >)
        requires
            self@.wf(),
        ensures
            self@.imgs.len() == 0 ==> r == Err::<DoubleMove, ImgError>(ImgError::NoSuchIndex),
            self@.imgs.len() > 0 ==> {
                let cur = self@.current();
                &&& cur.validate_check(self@.cmd_index, trash_kind) matches Some(e) ==> r == Err::<
                    DoubleMove,
                    ImgError,
                >(e)
                &&& cur.validate_check(self@.cmd_index, trash_kind) is None ==> (r matches Ok(m)
                    && m.stage == Stage::First && m.src_1@ == cur.source && m.dst_1@
                    == crate::img::deleted_path_spec(cur.source, trash_directory@) && m.src_2@
                    == cur.processed[self@.cmd_index]->Some_0.tmp_path->Some_0 && m.dst_2@
                    == cur.source)
            },
    {
        if self.imgs.len() == 0 {
            return Err(ImgError::NoSuchIndex);
        }
        self.imgs[self.index].validate(self.cmd_index, trash_directory, trash_kind)
    }

    /// Records the validation of the variant under the cursor once its
    /// double move has run; see `ImgItem::finish_validate`.
    pub fn finish_validate_current(&mut self, moves: DoubleMove) -> (r: Result<(), ImgError>)
        requires
            old(self)@.wf(),
        ensures
            final(self)@.wf(),
            old(self)@.imgs.len() == 0 ==> r == Err::<(), ImgError>(ImgError::NoSuchIndex)
                && final(self)@ == old(self)@,
            old(self)@.imgs.len() > 0 ==> {
                let before = old(self)@;
                let cur = before.current();
                &&& cur.validate_check(before.cmd_index, PathKind::Directory) matches Some(e) ==> r
                    == Err::<(), ImgError>(e) && final(self)@ == before
                &&& cur.validate_check(before.cmd_index, PathKind::Directory) is None ==> match moves.stage {
                    Stage::Done { result: Ok(()) } => r is Ok && final(self)@ == before.with_img(
                        before.index,
                        cur.validated(before.cmd_index, moves.dst_1@),
                    ),
                    Stage::Done { result: Err(e) } => r == Err::<(), ImgError>(ImgError::Move(e))
                        && final(self)@ == before,
                    _ => r == Err::<(), ImgError>(ImgError::Unfinished) && final(self)@ == before,
                }
            },
    {
        if self.imgs.len() == 0 {
            return Err(ImgError::NoSuchIndex);
        }
        let ghost before = self@;
        let ghost imgs_before = self.imgs@;
        let i = self.index;
        assert(before.imgs[i as int] == self.imgs@[i as int]@);
        assert(before.imgs[i as int].wf());
        let r = self.imgs[i].finish_validate(self.cmd_index, moves);
        assert(self.imgs@ == imgs_before.update(i as int, self.imgs@[i as int]));
        assert(self@ =~~= before.with_img(i as int, self.imgs@[i as int]@));
        r
    }

    /// Prepares undoing the validation of the image under the cursor; see
    /// `ImgItem::undo`.
    pub fn undo_current(&self) -> (r: Result<DoubleMove, ImgError>)
        requires
            self@.wf(),
        ensures
            self@.imgs.len() == 0 ==> r == Err::<DoubleMove, ImgError>(
                ImgError::NoValidatedInstance,
            ),
            self@.imgs.len() > 0 ==> {
                let cur = self@.current();
                &&& cur.undo_check() matches Some(e) ==> r == Err::<DoubleMove, ImgError>(e)
                &&& cur.undo_check() is None ==> (r matches Ok(m) && m.stage == Stage::First
                    && m.src_1@ == cur.source && m.dst_1@
                    == cur.processed[cur.validated_index()]->Some_0.tmp_path->Some_0 && m.src_2@
                    == cur.deleted->Some_0 && m.dst_2@ == cur.source)
            },
    {
        if self.imgs.len() == 0 {
            return Err(ImgError::NoValidatedInstance);
        }
        self.imgs[self.index].undo()
    }

    /// Records undoing the validation of the image under the cursor once
    /// its double move has run; see `ImgItem::finish_undo`.
    pub fn finish_undo_current(&mut self, moves: DoubleMove) -> (r: Result<(), ImgError>)
        requires
            old(self)@.wf(),
        ensures
            final(self)@.wf(),
            old(self)@.imgs.len() == 0 ==> r == Err::<(), ImgError>(ImgError::NoValidatedInstance)
                && final(self)@ == old(self)@,
            old(self)@.imgs.len() > 0 ==> {
                let before = old(self)@;
                let cur = before.current();
                &&& cur.undo_check() matches Some(e) ==> r == Err::<(), ImgError>(e) && final(self)@
                    == before
                &&& cur.undo_check() is None ==> match moves.stage {
                    Stage::Done { result: Ok(()) } => r is Ok && final(self)@ == before.with_img(
                        before.index,
                        cur.unvalidated(),
                    ),
                    Stage::Done { result: Err(e) } => r == Err::<(), ImgError>(ImgError::Move(e))
                        && final(self)@ == before,
                    _ => r == Err::<(), ImgError>(ImgError::Unfinished) && final(self)@ == before,
                }
            },
    {
        if self.imgs.len() == 0 {
            return Err(ImgError::NoValidatedInstance);
        }
        let ghost before = self@;
        let ghost imgs_before = self.imgs@;
        let i = self.index;
        assert(before.imgs[i as int] == self.imgs@[i as int]@);
        assert(before.imgs[i as int].wf());
        let r = self.imgs[i].finish_undo(moves);
        assert(self.imgs@ == imgs_before.update(i as int, self.imgs@[i as int]));
        assert(self@ =~~= before.with_img(i as int, self.imgs@[i as int]@));
        r
    }
}

} // verus!
