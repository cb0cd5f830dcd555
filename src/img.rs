//! An image and its processed variants: the per-variant processing state
//! machine, and validation and undo of a variant as double moves.

use vstd::prelude::*;
use crate::paths::{
    decimal, escape_path, escape_spec, extension, extension_of, file_stem, file_stem_of, join_path,
    join_spec, opt_view, push_char, push_decimal,
};
use crate::transaction::{moved, DoubleMove, Files, MoveError, Stage};
use crate::utils::{command_arguments, command_spec, views, PathKind};

verus! {

/// Where a variant stands in its processing.
#[derive(Clone, Copy, Debug, PartialEq, Eq, Structural)]
pub enum ProcessingState {
    NotProcessed,
    Processed,
    Failed,
}

/// Why processing a variant failed. Each failure is final.
#[derive(Clone, Copy, Debug, PartialEq, Eq, Structural)]
pub enum ProcessError {
    /// The output directory is missing or is not a directory.
    InvalidTarget,
    /// The source path names no file, so no output name can be made from it.
    NoFileName,
    /// The command left no file at the output path.
    ExecutionProducedNoOutput,
    /// The command left an empty file at the output path.
    EmptyOutput,
}

/// What a variant holds, as plain values.
pub struct ProcessItemView {
    pub state: ProcessingState,
    pub tmp_path: Option<Seq<char>>,
    pub processed_path: Option<Seq<char>>,
}

impl ProcessItemView {
    /// An output path is held exactly when the variant was processed, and
    /// only a processed variant can have been chosen.
    pub open spec fn consistent(self) -> bool {
        &&& (self.state == ProcessingState::Processed <==> self.tmp_path is Some)
        &&& (self.processed_path is Some ==> self.state == ProcessingState::Processed)
    }

    /// The variant once processing has failed.
    pub open spec fn failed(self) -> ProcessItemView {
        ProcessItemView { state: ProcessingState::Failed, tmp_path: None, ..self }
    }
}

/// A fresh variant, not processed yet.
pub open spec fn fresh_item() -> ProcessItemView {
    ProcessItemView { state: ProcessingState::NotProcessed, tmp_path: None, processed_path: None }
}

/// One (image, command) processing attempt.
///
/// `tmp_path` is where the command's output was written, set once the
/// variant is processed. `processed_path` is set while this variant is the
/// one the user chose for its image.
#[derive(Debug)]
pub struct ProcessItem {
    tmp_path: Option<String>,
    processed_path: Option<String>,
    state: ProcessingState,
}

impl View for ProcessItem {
    type V = ProcessItemView;

    closed spec fn view(&self) -> ProcessItemView {
        ProcessItemView {
            state: self.state,
            tmp_path: opt_view(self.tmp_path),
            processed_path: opt_view(self.processed_path),
        }
    }
}

/// The external command to run for a variant, and where it writes.
#[derive(Debug)]
pub struct Invocation {
    /// The program, then its arguments.
    pub argv: Vec<String>,
    /// The file the command is expected to write.
    pub output: String,
}

/// `_processed_`, which marks an output file name.
pub open spec fn processed_marker() -> Seq<char> {
    seq!['_', 'p', 'r', 'o', 'c', 'e', 's', 's', 'e', 'd', '_']
}

/// The output file name for a source of stem `stem` and extension `ext`
/// under command `i`.
pub open spec fn tmp_name_spec(stem: Seq<char>, ext: Option<Seq<char>>, i: nat) -> Seq<char> {
    stem + processed_marker() + decimal(i) + match ext {
        Some(e) => seq!['.'] + e,
        None => seq![],
    }
}

/// The output path of command `i` on `source`, in `dir`: none when the
/// source has no file stem.
pub open spec fn tmp_path_spec(dir: Seq<char>, source: Seq<char>, i: nat) -> Option<Seq<char>> {
    match file_stem_of(source) {
        Some(stem) => Some(join_spec(dir, tmp_name_spec(stem, extension_of(source), i))),
        None => None,
    }
}

/// The output path of command `i` for a source whose stem and extension
/// are given: `{dir}/{stem}_processed_{i}` followed by `.{extension}` when
/// there is one.
pub fn tmp_path_from_parts(
    processing_directory: &str,
    stem: &str,
    extension: &Option<String>,
    i: usize,
) -> (r: String)
    ensures
        r@ == join_spec(processing_directory@, tmp_name_spec(stem@, opt_view(*extension), i as nat)),
{
    let mut name = stem.to_owned();
    name.append("_processed_");
    proof {
        reveal_strlit("_processed_");
    }
    push_decimal(&mut name, i as u64);
    match extension {
        Some(e) => {
            push_char(&mut name, '.');
            name.append(e.as_str());
        },
        None => {},
    }
    assert(name@ =~= tmp_name_spec(stem@, opt_view(*extension), i as nat));
    join_path(processing_directory, name.as_str())
}

/// Given the source path, the processing directory and the command index,
/// the path where the command's output goes; `None` when the source path
/// names no file.
pub fn process_tmp_path(source: &str, processing_directory: &str, i: usize) -> (r: Option<String>)
    ensures
        opt_view(r) == tmp_path_spec(processing_directory@, source@, i as nat),
{
    let stem = file_stem(source);
    match stem {
        Some(stem) => {
            let ext = extension(source);
            Some(tmp_path_from_parts(processing_directory, stem.as_str(), &ext, i))
        },
        None => None,
    }
}

fn clone_path(o: &Option<String>) -> (r: Option<String>)
    ensures
        r == *o,
{
    match o {
        Some(s) => Some(s.clone()),
        None => None,
    }
}

impl ProcessItem {
    #[verifier::type_invariant]
    spec fn inv(self) -> bool {
        self@.consistent()
    }

    pub fn new() -> (r: ProcessItem)
        ensures
            r@ == fresh_item(),
    {
        ProcessItem { tmp_path: None, processed_path: None, state: ProcessingState::NotProcessed }
    }

    pub fn is_processed(&self) -> (r: bool)
        ensures
            r == (self@.state == ProcessingState::Processed),
            r == self@.tmp_path is Some,
    {
        proof {
            use_type_invariant(self);
        }
        self.tmp_path.is_some()
    }

    /// Whether this variant is the one chosen for its image.
    pub fn is_validated(&self) -> (r: bool)
        ensures
            r == self@.processed_path is Some,
    {
        self.processed_path.is_some()
    }

    pub fn state(&self) -> (r: ProcessingState)
        ensures
            r == self@.state,
    {
        self.state
    }

    pub fn tmp_path(&self) -> (r: Option<String>)
        ensures
            opt_view(r) == self@.tmp_path,
    {
        clone_path(&self.tmp_path)
    }

    pub fn processed_path(&self) -> (r: Option<String>)
        ensures
            opt_view(r) == self@.processed_path,
    {
        clone_path(&self.processed_path)
    }

    /// This variant with its chosen path replaced.
    fn with_processed_path(&self, path: Option<String>) -> (r: ProcessItem)
        requires
            path is Some ==> self@.state == ProcessingState::Processed,
        ensures
            r@ == (ProcessItemView { processed_path: opt_view(path), ..self@ }),
    {
        proof {
            use_type_invariant(self);
        }
        ProcessItem { tmp_path: clone_path(&self.tmp_path), processed_path: path, state: self.state }
    }

    /// First half of processing `source` with the command template `cmd`
    /// (number `cmd_index`), writing into `output_dir`, whose kind on disk is
    /// `output_dir_kind`.
    ///
    /// A variant that has left `NotProcessed` is not touched and nothing is
    /// to be run. Otherwise, when no output path can be made the variant
    /// fails; when one can, the command to run is returned and the variant
    /// waits for `finish_process`.
    pub fn prepare_process(
        &mut self,
        source: &str,
        output_dir: &str,
        output_dir_kind: PathKind,
        cmd: &str,
        cmd_index: usize,
    ) -> (r: Result<Option<Invocation>, ProcessError>)
        ensures
            final(self)@.consistent(),
            old(self)@.state != ProcessingState::NotProcessed ==> final(self)@ == old(self)@ && r
                is Ok && r->Ok_0 is None,
            old(self)@.state == ProcessingState::NotProcessed && output_dir_kind
                != PathKind::Directory ==> r == Err::<Option<Invocation>, _>(
                ProcessError::InvalidTarget,
            ) && final(self)@ == old(self)@.failed(),
            old(self)@.state == ProcessingState::NotProcessed && output_dir_kind
                == PathKind::Directory && tmp_path_spec(output_dir@, source@, cmd_index as nat)
                is None ==> r == Err::<Option<Invocation>, _>(ProcessError::NoFileName)
                && final(self)@ == old(self)@.failed(),
            old(self)@.state == ProcessingState::NotProcessed && output_dir_kind
                == PathKind::Directory ==> (tmp_path_spec(output_dir@, source@, cmd_index as nat)
                matches Some(out) ==> final(self)@ == old(self)@ && (r matches Ok(Some(inv))
                && inv.output@ == out && views(inv.argv@) == command_spec(cmd@, source@, out))),
    {
        proof {
            use_type_invariant(&*self);
        }
        if self.state != ProcessingState::NotProcessed {
            return Ok(None);
        }
        if output_dir_kind != PathKind::Directory {
            *self = ProcessItem {
                tmp_path: None,
                processed_path: None,
                state: ProcessingState::Failed,
            };
            return Err(ProcessError::InvalidTarget);
        }
        match process_tmp_path(source, output_dir, cmd_index) {
            Some(output) => {
                let argv = command_arguments(cmd, source, output.as_str());
                Ok(Some(Invocation { argv, output }))
            },
            None => {
                *self = ProcessItem {
                    tmp_path: None,
                    processed_path: None,
                    state: ProcessingState::Failed,
                };
                Err(ProcessError::NoFileName)
            },
        }
    }

    /// Second half of processing: records what the command left at
    /// `output`, the length of the file there or `None` if there is none.
    /// A non-empty file makes the variant processed; anything else makes it
    /// fail. A variant that has left `NotProcessed` is not touched.
    pub fn finish_process(&mut self, output: &str, output_len: Option<u64>) -> (r: Result<
        (),
        ProcessError,
    >)
        ensures
            final(self)@.consistent(),
            old(self)@.state != ProcessingState::NotProcessed ==> final(self)@ == old(self)@ && r
                is Ok,
            old(self)@.state == ProcessingState::NotProcessed && output_len is None ==> r == Err::<
                (),
                _,
            >(ProcessError::ExecutionProducedNoOutput) && final(self)@ == old(self)@.failed(),
            old(self)@.state == ProcessingState::NotProcessed && output_len == Some(0u64) ==> r
                == Err::<(), _>(ProcessError::EmptyOutput) && final(self)@ == old(self)@.failed(),
            old(self)@.state == ProcessingState::NotProcessed ==> (output_len matches Some(n) ==> (n
                > 0 ==> r is Ok && final(self)@ == (ProcessItemView {
                state: ProcessingState::Processed,
                tmp_path: Some(output@),
                ..old(self)@
            }))),
    {
        proof {
            use_type_invariant(&*self);
        }
        if self.state != ProcessingState::NotProcessed {
            return Ok(());
        }
        match output_len {
            None => {
                *self = ProcessItem {
                    tmp_path: None,
                    processed_path: None,
                    state: ProcessingState::Failed,
                };
                Err(ProcessError::ExecutionProducedNoOutput)
            },
            Some(0) => {
                *self = ProcessItem {
                    tmp_path: None,
                    processed_path: None,
                    state: ProcessingState::Failed,
                };
                Err(ProcessError::EmptyOutput)
            },
            Some(_) => {
                *self = ProcessItem {
                    tmp_path: Some(output.to_owned()),
                    processed_path: None,
                    state: ProcessingState::Processed,
                };
                Ok(())
            },
        }
    }
}

impl Default for ProcessItem {
    fn default() -> (r: ProcessItem)
        ensures
            r@ == fresh_item(),
    {
        ProcessItem::new()
    }
}

/// Why a validation or an undo was refused or did not complete.
#[derive(Debug)]
pub enum ImgError {
    /// No variant stands at that index: it is out of range, or its variant
    /// is away being processed.
    NoSuchIndex,
    /// The variant at that index is not processed.
    NotYetProcessed,
    /// A variant of this image is validated already.
    AlreadyValidated,
    /// The trash directory is missing or is not a directory.
    InvalidTarget,
    /// No variant of this image is validated.
    NoValidatedInstance,
    /// The image holds no path for its moved original.
    NoDeletedPath,
    /// The double move handed back has not finished.
    Unfinished,
    /// The double move failed.
    Move(MoveError),
}

/// The view of a slot of an image.
pub open spec fn item_view(o: Option<ProcessItem>) -> Option<ProcessItemView> {
    match o {
        Some(p) => Some(p@),
        None => None,
    }
}

/// What an image holds, as plain values.
#[verifier::ext_equal]
pub struct ImgItemView {
    pub source: Seq<char>,
    pub deleted: Option<Seq<char>>,
    pub processed: Seq<Option<ProcessItemView>>,
}

/// Where the original at `source` goes when a variant replaces it: the
/// whole source path flattened into one file name inside `trash`.
pub open spec fn deleted_path_spec(source: Seq<char>, trash: Seq<char>) -> Seq<char> {
    join_spec(trash, escape_spec(source))
}

impl ImgItemView {
    /// The slot `k` holds the chosen variant.
    pub open spec fn validated_at(self, k: int) -> bool {
        &&& 0 <= k < self.processed.len()
        &&& self.processed[k] is Some
        &&& self.processed[k]->Some_0.processed_path is Some
    }

    pub open spec fn has_validated(self) -> bool {
        exists|k: int| self.validated_at(k)
    }

    /// The slot of the chosen variant, when there is one.
    pub open spec fn validated_index(self) -> int {
        choose|k: int| self.validated_at(k)
    }

    /// Every variant held is consistent; at most one variant is chosen; the
    /// original has been moved away exactly when one is; and the chosen one
    /// records the source path it now stands at.
    pub open spec fn wf(self) -> bool {
        &&& forall|k: int|
            0 <= k < self.processed.len() && #[trigger] self.processed[k] is Some
                ==> self.processed[k]->Some_0.consistent()
        &&& forall|k1: int, k2: int|
            #[trigger] self.validated_at(k1) && #[trigger] self.validated_at(k2) ==> k1 == k2
        &&& (self.deleted is Some <==> self.has_validated())
        &&& forall|k: int| #[trigger]
            self.validated_at(k) ==> self.processed[k]->Some_0.processed_path == Some(self.source)
    }

    /// Why the variant at `k` cannot be validated into a trash directory of
    /// kind `trash_kind`, if it cannot.
    pub open spec fn validate_check(self, k: int, trash_kind: PathKind) -> Option<ImgError> {
        if !(0 <= k < self.processed.len()) || self.processed[k] is None {
            Some(ImgError::NoSuchIndex)
        } else if self.processed[k]->Some_0.state != ProcessingState::Processed {
            Some(ImgError::NotYetProcessed)
        } else if self.deleted is Some {
            Some(ImgError::AlreadyValidated)
        } else if trash_kind != PathKind::Directory {
            Some(ImgError::InvalidTarget)
        } else {
            None
        }
    }

    /// The image once the variant at `k` has replaced the original, which
    /// went to `deleted`.
    pub open spec fn validated(self, k: int, deleted: Seq<char>) -> ImgItemView {
        ImgItemView {
            deleted: Some(deleted),
            processed: self.processed.update(
                k,
                Some(ProcessItemView { processed_path: Some(self.source), ..self.processed[k]->Some_0 }),
            ),
            ..self
        }
    }

    /// Why the validation cannot be undone, if it cannot.
    pub open spec fn undo_check(self) -> Option<ImgError> {
        if !self.has_validated() {
            Some(ImgError::NoValidatedInstance)
        } else if self.deleted is None {
            Some(ImgError::NoDeletedPath)
        } else {
            None
        }
    }

    /// The image once its validation is undone.
    pub open spec fn unvalidated(self) -> ImgItemView {
        let k = self.validated_index();
        ImgItemView {
            deleted: None,
            processed: self.processed.update(
                k,
                Some(ProcessItemView { processed_path: None, ..self.processed[k]->Some_0 }),
            ),
            ..self
        }
    }
}

/// Given the source path and the trash directory, the path where the
/// original goes when a variant replaces it.
pub fn deleted_file_path(source: &str, trash_directory: &str) -> (r: String)
    ensures
        r@ == deleted_path_spec(source@, trash_directory@),
{
    let name = escape_path(source);
    join_path(trash_directory, name.as_str())
}

/// One source image and all its variants, one slot per command. A slot is
/// empty while its variant is away being processed.
///
/// `deleted` is where the original went once a variant was validated.
#[derive(Debug)]
pub struct ImgItem {
    source: String,
    deleted: Option<String>,
    processed: Vec<Option<ProcessItem>>,
}

impl View for ImgItem {
    type V = ImgItemView;

    closed spec fn view(&self) -> ImgItemView {
        ImgItemView {
            source: self.source@,
            deleted: opt_view(self.deleted),
            processed: self.processed@.map_values(|o: Option<ProcessItem>| item_view(o)),
        }
    }
}

impl ImgItem {
    /// An image at `source` with `cmds_len` fresh variants.
    pub fn new(source: &str, cmds_len: usize) -> (r: ImgItem)
        ensures
            r@.wf(),
            r@.source == source@,
            r@.deleted is None,
            r@.processed == Seq::new(cmds_len as nat, |k: int| Some(fresh_item())),
    {
        let mut processed: Vec<Option<ProcessItem>> = Vec::new();
        let mut k: usize = 0;
        while k < cmds_len
            invariant
                k <= cmds_len,
                processed@.map_values(|o: Option<ProcessItem>| item_view(o)) =~= Seq::new(
                    k as nat,
                    |j: int| Some(fresh_item()),
                ),
            decreases cmds_len - k,
        {
            let item = ProcessItem::new();
            let ghost before = processed@;
            processed.push(Some(item));
            assert(processed@ == before.push(Some(item)));
            assert(processed@.map_values(|o: Option<ProcessItem>| item_view(o)) =~= before.map_values(
                |o: Option<ProcessItem>| item_view(o),
            ).push(Some(fresh_item())));
            k = k + 1;
        }
        let r = ImgItem { source: source.to_owned(), deleted: None, processed };
        assert(!r@.has_validated());
        r
    }

    pub fn source(&self) -> (r: &str)
        ensures
            r@ == self@.source,
    {
        self.source.as_str()
    }

    pub fn deleted(&self) -> (r: Option<String>)
        ensures
            opt_view(r) == self@.deleted,
    {
        clone_path(&self.deleted)
    }

    /// The number of slots, one per command.
    pub fn cmds_len(&self) -> (r: usize)
        ensures
            r == self@.processed.len(),
    {
        self.processed.len()
    }

    /// The variant in slot `k`, if the slot exists and is not empty.
    pub fn process_item(&self, k: usize) -> (r: Option<&ProcessItem>)
        ensures
            k < self@.processed.len() && self@.processed[k as int] is Some <==> r is Some,
            r matches Some(p) ==> self@.processed[k as int] == Some(p@),
    {
        if k < self.processed.len() {
            assert(self@.processed[k as int] == item_view(self.processed@[k as int]));
            match &self.processed[k] {
                Some(p) => Some(p),
                None => None,
            }
        } else {
            None
        }
    }

    /// An image is validated once its original has been moved away.
    pub fn is_validated(&self) -> (r: bool)
        ensures
            r == self@.deleted is Some,
            self@.wf() ==> (r <==> self@.has_validated()),
    {
        self.deleted.is_some()
    }

    fn find_validated(&self) -> (r: Option<usize>)
        ensures
            r matches Some(k) ==> self@.validated_at(k as int),
            r is None ==> !self@.has_validated(),
    {
        let n = self.processed.len();
        let mut k: usize = 0;
        while k < n
            invariant
                k <= n,
                n == self@.processed.len(),
                forall|j: int| 0 <= j < k ==> !self@.validated_at(j),
            decreases n - k,
        {
            assert(self@.processed[k as int] == item_view(self.processed@[k as int]));
            match &self.processed[k] {
                Some(p) => {
                    if p.is_validated() {
                        return Some(k);
                    }
                },
                None => {},
            }
            k = k + 1;
        }
        None
    }

    /// The variant that was validated, if there is one.
    pub fn get_validated(&self) -> (r: Option<&ProcessItem>)
        ensures
            r is Some <==> self@.has_validated(),
            r matches Some(p) ==> exists|k: int|
                self@.validated_at(k) && self@.processed[k] == Some(p@),
    {
        match self.find_validated() {
            Some(k) => {
                assert(self@.processed[k as int] == item_view(self.processed@[k as int]));
                match &self.processed[k] {
                    Some(p) => Some(p),
                    None => None,
                }
            },
            None => None,
        }
    }

    /// Takes the variant in slot `k` out to be processed, leaving the slot
    /// empty. Only a variant that is not processed yet is taken.
    pub fn take_for_processing(&mut self, k: usize) -> (r: Option<ProcessItem>)
        requires
            old(self)@.wf(),
        ensures
            final(self)@.wf(),
            ({
                let before = old(self)@;
                if k < before.processed.len() && before.processed[k as int] is Some
                    && before.processed[k as int]->Some_0.state == ProcessingState::NotProcessed {
                    &&& r matches Some(p) && before.processed[k as int] == Some(p@)
                    &&& final(self)@ == (ImgItemView {
                        processed: before.processed.update(k as int, None),
                        ..before
                    })
                } else {
                    r is None && final(self)@ == before
                }
            }),
    {
        if k >= self.processed.len() {
            return None;
        }
        let ghost before = self@;
        assert(before.processed[k as int] == item_view(self.processed@[k as int]));
        let ready = match &self.processed[k] {
            Some(p) => p.state() == ProcessingState::NotProcessed,
            None => false,
        };
        if !ready {
            return None;
        }
        let ghost old_vec = self.processed@;
        let item = self.processed[k].take();
        assert(self.processed@ == old_vec.update(k as int, None));
        assert(self@.processed =~= before.processed.update(k as int, None));
        assert(!before.validated_at(k as int));
        assert forall|j: int| #[trigger] self@.validated_at(j) implies before.validated_at(j) by {}
        assert forall|j: int| #[trigger] before.validated_at(j) implies self@.validated_at(j) by {}
        item
    }

    /// Puts a variant back into the empty slot `k` it was taken from. A
    /// variant is refused, and handed back, when the slot does not exist or
    /// is not empty, or when the variant is marked as validated.
    pub fn put_back(&mut self, k: usize, item: ProcessItem) -> (r: Result<(), ProcessItem>)
        requires
            old(self)@.wf(),
        ensures
            final(self)@.wf(),
            ({
                let before = old(self)@;
                if k < before.processed.len() && before.processed[k as int] is None
                    && item@.processed_path is None {
                    r is Ok && final(self)@ == (ImgItemView {
                        processed: before.processed.update(k as int, Some(item@)),
                        ..before
                    })
                } else {
                    r matches Err(p) && p@ == item@ && final(self)@ == before
                }
            }),
    {
        proof {
            use_type_invariant(&item);
        }
        if k >= self.processed.len() || self.processed[k].is_some() || item.is_validated() {
            return Err(item);
        }
        let ghost before = self@;
        assert(before.processed[k as int] == item_view(self.processed@[k as int]));
        let ghost old_vec = self.processed@;
        self.processed.set(k, Some(item));
        assert(self@.processed =~= before.processed.update(k as int, Some(item@)));
        assert forall|j: int| #[trigger] self@.validated_at(j) implies before.validated_at(j) by {}
        assert forall|j: int| #[trigger] before.validated_at(j) implies self@.validated_at(j) by {}
        Ok(())
    }

    /// Prepares the validation of the variant in slot `cmd_index`, with the
    /// trash directory `trash_directory` of kind `trash_kind`: the double
    /// move that moves the original into the trash, then the variant's
    /// output to the original's place. The moves are made by the caller, who
    /// hands the finished double move to `finish_validate`.
    pub fn validate(&self, cmd_index: usize, trash_directory: &str, trash_kind: PathKind) -> (r:
        Result<DoubleMove, ImgError>)
        ensures
            self@.validate_check(cmd_index as int, trash_kind) matches Some(e) ==> r == Err::<
                DoubleMove,
                ImgError,
            >(e),
            self@.validate_check(cmd_index as int, trash_kind) is None ==> (r matches Ok(m) && m.stage
                == Stage::First && m.src_1@ == self@.source && m.dst_1@ == deleted_path_spec(
                self@.source,
                trash_directory@,
            ) && m.src_2@ == self@.processed[cmd_index as int]->Some_0.tmp_path->Some_0 && m.dst_2@
                == self@.source),
    {
        if cmd_index >= self.processed.len() {
            return Err(ImgError::NoSuchIndex);
        }
        assert(self@.processed[cmd_index as int] == item_view(self.processed@[cmd_index as int]));
        let tmp = match &self.processed[cmd_index] {
            None => {
                return Err(ImgError::NoSuchIndex);
            },
            Some(p) => {
                if !p.is_processed() {
                    return Err(ImgError::NotYetProcessed);
                }
                match p.tmp_path() {
                    None => {
                        return Err(ImgError::NotYetProcessed);
                    },
                    Some(t) => t,
                }
            },
        };
        if self.deleted.is_some() {
            return Err(ImgError::AlreadyValidated);
        }
        if trash_kind != PathKind::Directory {
            return Err(ImgError::InvalidTarget);
        }
        let deleted = deleted_file_path(self.source.as_str(), trash_directory);
        Ok(DoubleMove::new(self.source.clone(), deleted, tmp, self.source.clone()))
    }

    /// Records a validation once its double move, as `validate` returned
    /// it, has been run: on success the original is at the move's first
    /// destination and the variant in slot `cmd_index` is the chosen one.
    /// Otherwise the image is left as it was.
    pub fn finish_validate(&mut self, cmd_index: usize, moves: DoubleMove) -> (r: Result<
        (),
        ImgError,
    >)
        requires
            old(self)@.wf(),
        ensures
            final(self)@.wf(),
            old(self)@.validate_check(cmd_index as int, PathKind::Directory) matches Some(e) ==> r
                == Err::<(), ImgError>(e) && final(self)@ == old(self)@,
            old(self)@.validate_check(cmd_index as int, PathKind::Directory) is None ==> match moves.stage {
                Stage::Done { result: Ok(()) } => r is Ok && final(self)@ == old(self)@.validated(
                    cmd_index as int,
                    moves.dst_1@,
                ),
                Stage::Done { result: Err(e) } => r == Err::<(), ImgError>(ImgError::Move(e))
                    && final(self)@ == old(self)@,
                _ => r == Err::<(), ImgError>(ImgError::Unfinished) && final(self)@ == old(self)@,
            },
    {
        if cmd_index >= self.processed.len() {
            return Err(ImgError::NoSuchIndex);
        }
        let ghost before = self@;
        assert(before.processed[cmd_index as int] == item_view(self.processed@[cmd_index as int]));
        let chosen = match &self.processed[cmd_index] {
            None => {
                return Err(ImgError::NoSuchIndex);
            },
            Some(p) => {
                if !p.is_processed() {
                    return Err(ImgError::NotYetProcessed);
                }
                p.with_processed_path(Some(self.source.clone()))
            },
        };
        if self.deleted.is_some() {
            return Err(ImgError::AlreadyValidated);
        }
        match moves.stage {
            Stage::Done { result: Ok(()) } => {
                self.processed.set(cmd_index, Some(chosen));
                self.deleted = Some(moves.dst_1);
                assert(self@.processed =~= before.validated(cmd_index as int, moves.dst_1@).processed);
                assert(self@.validated_at(cmd_index as int));
                assert forall|j: int| #[trigger] self@.validated_at(j) implies j == cmd_index by {
                    if j != cmd_index {
                        assert(before.validated_at(j));
                    }
                }
                Ok(())
            },
            Stage::Done { result: Err(e) } => Err(ImgError::Move(e)),
            _ => Err(ImgError::Unfinished),
        }
    }

    /// Prepares undoing the validation: the double move that moves the
    /// chosen variant back to its output path, then the original back to its
    /// place. The moves are made by the caller, who hands the finished double
    /// move to `finish_undo`.
    pub fn undo(&self) -> (r: Result<DoubleMove, ImgError>)
        requires
            self@.wf(),
        ensures
            self@.undo_check() matches Some(e) ==> r == Err::<DoubleMove, ImgError>(e),
            self@.undo_check() is None ==> (r matches Ok(m) && m.stage == Stage::First && m.src_1@
                == self@.source && m.dst_1@ == self@.processed[self@.validated_index()]->Some_0.tmp_path->Some_0
                && m.src_2@ == self@.deleted->Some_0 && m.dst_2@ == self@.source),
    {
        let k = match self.find_validated() {
            None => {
                return Err(ImgError::NoValidatedInstance);
            },
            Some(k) => k,
        };
        assert(self@.validated_index() == k);
        assert(self@.processed[k as int] == item_view(self.processed@[k as int]));
        let tmp = match &self.processed[k] {
            None => {
                return Err(ImgError::NoValidatedInstance);
            },
            Some(p) => match p.tmp_path() {
                None => {
                    return Err(ImgError::NoValidatedInstance);
                },
                Some(t) => t,
            },
        };
        let deleted = match &self.deleted {
            None => {
                return Err(ImgError::NoDeletedPath);
            },
            Some(d) => d.clone(),
        };
        Ok(DoubleMove::new(self.source.clone(), tmp, deleted, self.source.clone()))
    }

    /// Records an undo once its double move, as `undo` returned it, has been
    /// run: on success no variant is chosen any more and the original is
    /// back. Otherwise the image is left as it was.
    pub fn finish_undo(&mut self, moves: DoubleMove) -> (r: Result<(), ImgError>)
        requires
            old(self)@.wf(),
        ensures
            final(self)@.wf(),
            old(self)@.undo_check() matches Some(e) ==> r == Err::<(), ImgError>(e) && final(self)@
                == old(self)@,
            old(self)@.undo_check() is None ==> match moves.stage {
                Stage::Done { result: Ok(()) } => r is Ok && final(self)@ == old(self)@.unvalidated(),
                Stage::Done { result: Err(e) } => r == Err::<(), ImgError>(ImgError::Move(e))
                    && final(self)@ == old(self)@,
                _ => r == Err::<(), ImgError>(ImgError::Unfinished) && final(self)@ == old(self)@,
            },
    {
        let k = match self.find_validated() {
            None => {
                return Err(ImgError::NoValidatedInstance);
            },
            Some(k) => k,
        };
        if self.deleted.is_none() {
            return Err(ImgError::NoDeletedPath);
        }
        let ghost before = self@;
        assert(before.validated_index() == k);
        assert(before.processed[k as int] == item_view(self.processed@[k as int]));
        let released = match &self.processed[k] {
            None => {
                return Err(ImgError::NoValidatedInstance);
            },
            Some(p) => p.with_processed_path(None),
        };
        match moves.stage {
            Stage::Done { result: Ok(()) } => {
                self.processed.set(k, Some(released));
                self.deleted = None;
                assert(self@.processed =~= before.unvalidated().processed);
                assert forall|j: int| !#[trigger] self@.validated_at(j) by {
                    if j != k && self@.validated_at(j) {
                        assert(before.validated_at(j));
                    }
                }
                Ok(())
            },
            Stage::Done { result: Err(e) } => Err(ImgError::Move(e)),
            _ => Err(ImgError::Unfinished),
        }
    }
}

/// Validating a variant and then undoing the validation is a round trip.
///
/// Take an image whose variant at `k` can be validated into the directory
/// `trash`, and files on which the original and the variant's output exist,
/// nothing stands at the trash path, and the three paths differ. When the
/// double move of the validation and then that of the undo both succeed, the
/// files are exactly as they were (the original's content is back at the
/// source path, the variant's output back at its output path, the trash path
/// empty), and the image is as it was: no variant chosen, no moved original.
pub proof fn lemma_validate_undo_round_trip(img: ImgItemView, k: int, trash: Seq<char>, fs: Files)
    requires
        img.wf(),
        img.validate_check(k, PathKind::Directory) is None,
        ({
            let src = img.source;
            let tmp = img.processed[k]->Some_0.tmp_path->Some_0;
            let bin = deleted_path_spec(src, trash);
            &&& fs.contains_key(src)
            &&& fs.contains_key(tmp)
            &&& !fs.contains_key(bin)
            &&& src != tmp
            &&& src != bin
            &&& tmp != bin
        }),
    ensures
        ({
            let src = img.source;
            let tmp = img.processed[k]->Some_0.tmp_path->Some_0;
            let bin = deleted_path_spec(src, trash);
            let validated_files = moved(moved(fs, src, bin), tmp, src);
            let chosen = img.validated(k, bin);
            &&& chosen.wf()
            &&& chosen.undo_check() is None
            &&& chosen.processed[chosen.validated_index()]->Some_0.tmp_path == Some(tmp)
            &&& chosen.deleted == Some(bin)
            &&& moved(moved(validated_files, src, tmp), bin, src) == fs
            &&& chosen.unvalidated() == img
        }),
{
    let src = img.source;
    let tmp = img.processed[k]->Some_0.tmp_path->Some_0;
    let bin = deleted_path_spec(src, trash);
    let validated_files = moved(moved(fs, src, bin), tmp, src);
    let chosen = img.validated(k, bin);
    assert(!img.validated_at(k));
    assert(chosen.validated_at(k));
    assert forall|j: int| #[trigger] chosen.validated_at(j) implies j == k by {
        if j != k {
            assert(img.validated_at(j));
        }
    }
    assert forall|k1: int, k2: int|
        #[trigger] chosen.validated_at(k1) && #[trigger] chosen.validated_at(k2) implies k1
        == k2 by {}
    assert(chosen.validated_index() == k);
    assert(chosen.wf());
    assert(moved(moved(validated_files, src, tmp), bin, src) =~= fs);
    assert(chosen.unvalidated().processed =~= img.processed);
}

} // verus!
