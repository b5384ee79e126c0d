//! Batches of file operations and conversions: what each item turns into,
//! how progress is reported, how a run keeps count, and how it is
//! summed up for the user. The caller performs each call and reports back.

use vstd::prelude::*;
use vstd::string::StringExecFns;
use crate::converters::backend::views;
use crate::converters::types::{ConversionError, ConversionKind, ConversionStage};
use crate::operations::{OperationError, ValidationError};
use crate::path::{file_name, join, parent, path_file_name, path_join, path_parent};
use crate::text::{chars_of, decimal, extend_chars, extend_str, push_decimal, string_of};

verus! {

/// A file operation.
#[derive(Debug, Clone, Copy, PartialEq, Eq, Structural)]
pub enum OperationKind {
    Copy,
    Move,
    Rename,
    Delete,
    CreateDirectory,
}

/// A batch of one file operation over several sources.
#[derive(Debug, Clone)]
pub struct OperationRequest {
    pub kind: OperationKind,
    pub sources: Vec<String>,
    pub destination_directory: Option<String>,
    pub rename_name: Option<String>,
    pub refresh_path: String,
}

/// A batch of conversions.
#[derive(Debug, Clone)]
pub struct ConversionRequest {
    pub kind: ConversionKind,
    pub sources: Vec<String>,
    pub refresh_path: String,
}

/// Progress of a batch, as shown while it runs.
#[derive(Debug, Clone, PartialEq, Eq)]
pub struct OperationUpdate {
    pub completed_items: usize,
    pub total_items: usize,
    pub current_bytes: u64,
    pub current_total_bytes: u64,
    pub explicit_percent: Option<u8>,
    pub label: String,
}

/// The name an item is shown by: its file name, else its whole path.
pub open spec fn label_of(source: Seq<char>) -> Seq<char> {
    match file_name(source) {
        Some(n) => n,
        None => source,
    }
}

/// The name an item is shown by.
pub fn operation_label(source: &str) -> (r: String)
    ensures
        r@ == label_of(source@),
{
    let s = chars_of(source);
    match path_file_name(&s) {
        Some(n) => string_of(&n),
        None => String::from_str(source),
    }
}

/// Where a copied or moved item goes: its file name in the destination
/// folder of the request.
pub fn operation_destination(request: &OperationRequest, source: &str) -> (r: Result<
    String,
    OperationError,
>)
    ensures
        request.destination_directory is None ==> r matches Err(
            OperationError::Validation(ValidationError::EmptyPath),
        ),
        request.destination_directory matches Some(d) ==> match file_name(source@) {
            None => r matches Err(OperationError::Validation(ValidationError::EmptyPath)),
            Some(n) => r matches Ok(t) && t@ == join(d@, n),
        },
{
    let directory = match &request.destination_directory {
        Some(d) => d,
        None => {
            return Err(OperationError::Validation(ValidationError::EmptyPath));
        },
    };
    let s = chars_of(source);
    let name = match path_file_name(&s) {
        Some(n) => n,
        None => {
            return Err(OperationError::Validation(ValidationError::EmptyPath));
        },
    };
    let d = chars_of(directory.as_str());
    let t = path_join(&d, &name);
    Ok(string_of(&t))
}

/// Progress within item `index` of `total_items`, by bytes.
pub fn item_progress(
    index: usize,
    total_items: usize,
    label: &str,
    current_bytes: u64,
    current_total_bytes: u64,
) -> (r: OperationUpdate)
    ensures
        r.completed_items == index,
        r.total_items == total_items,
        r.current_bytes == current_bytes,
        r.current_total_bytes == current_total_bytes,
        r.explicit_percent is None,
        r.label@ == label@,
{
    OperationUpdate {
        completed_items: index,
        total_items,
        current_bytes,
        current_total_bytes,
        explicit_percent: None,
        label: String::from_str(label),
    }
}

/// Progress within item `index` of `total_items`, by conversion stage.
pub fn stage_progress(index: usize, total_items: usize, label: &str, stage: ConversionStage) -> (r:
    OperationUpdate)
    ensures
        r.completed_items == index,
        r.total_items == total_items,
        r.current_bytes == 0,
        r.current_total_bytes == 0,
        r.explicit_percent == Some(stage.percent_of()),
        r.label@ == label@,
{
    OperationUpdate {
        completed_items: index,
        total_items,
        current_bytes: 0,
        current_total_bytes: 0,
        explicit_percent: Some(stage.percent()),
        label: String::from_str(label),
    }
}

/// What one item of a batch turns into, decided before any call.
#[derive(Debug)]
pub enum ItemPlan {
    /// Copy the source to this path.
    Copy { destination: String },
    /// Rename the source to this path; on another device, copy and delete.
    Move { destination: String },
    /// Rename the source to this path in its own folder.
    Rename { target: String },
    /// Delete the source.
    Delete,
    /// Create a folder at the source path.
    CreateDirectory,
    /// The item fails with this error without any call.
    Fail(OperationError),
    /// The whole batch ends here with this one failure.
    Abort(String),
}

/// `label: reason` as one failure line.
pub open spec fn failure_line(label: Seq<char>, reason: Seq<char>) -> Seq<char> {
    label + ": "@ + reason
}

fn failure_text(label: &str, reason: &str) -> (r: String)
    ensures
        r@ == failure_line(label@, reason@),
{
    let mut out: Vec<char> = Vec::new();
    extend_str(&mut out, label);
    extend_str(&mut out, ": ");
    extend_str(&mut out, reason);
    string_of(&out)
}

/// What one item of `request` turns into.
pub fn plan_item(request: &OperationRequest, source: &str) -> (r: ItemPlan)
    ensures
        request.kind == OperationKind::Copy || request.kind == OperationKind::Move ==> match (
        request.destination_directory,
        file_name(source@),
        ) {
            (Some(d), Some(n)) => if request.kind == OperationKind::Copy {
                r matches ItemPlan::Copy { destination } && destination@ == join(d@, n)
            } else {
                r matches ItemPlan::Move { destination } && destination@ == join(d@, n)
            },
            _ => r matches ItemPlan::Fail(OperationError::Validation(ValidationError::EmptyPath)),
        },
        request.kind == OperationKind::Rename ==> match request.rename_name {
            None => r matches ItemPlan::Abort(m) && m@ == failure_line(
                label_of(source@),
                "novo nome ausente"@,
            ),
            Some(name) => match parent(source@) {
                None => r matches ItemPlan::Abort(m) && m@ == failure_line(
                    label_of(source@),
                    "diretório pai ausente"@,
                ),
                Some(p) => r matches ItemPlan::Rename { target } && target@ == join(p, name@),
            },
        },
        request.kind == OperationKind::Delete ==> r is Delete,
        request.kind == OperationKind::CreateDirectory ==> r is CreateDirectory,
{
    match request.kind {
        OperationKind::Copy => match operation_destination(request, source) {
            Ok(destination) => ItemPlan::Copy { destination },
            Err(e) => ItemPlan::Fail(e),
        },
        OperationKind::Move => match operation_destination(request, source) {
            Ok(destination) => ItemPlan::Move { destination },
            Err(e) => ItemPlan::Fail(e),
        },
        OperationKind::Rename => {
            let label = operation_label(source);
            let name = match &request.rename_name {
                Some(n) => n,
                None => {
                    return ItemPlan::Abort(failure_text(label.as_str(), "novo nome ausente"));
                },
            };
            let s = chars_of(source);
            match path_parent(&s) {
                Some(p) => {
                    let n = chars_of(name.as_str());
                    let t = path_join(&p, &n);
                    ItemPlan::Rename { target: string_of(&t) }
                },
                None => ItemPlan::Abort(failure_text(label.as_str(), "diretório pai ausente")),
            }
        },
        OperationKind::Delete => ItemPlan::Delete,
        OperationKind::CreateDirectory => ItemPlan::CreateDirectory,
    }
}

/// What follows the rename of a moved item.
#[derive(Debug)]
pub enum MoveStep {
    /// The item is done with this result.
    Done(Result<(), OperationError>),
    /// Source and destination lie on different devices: copy instead.
    CopyInstead,
}

/// After renaming a moved item: a cross-device refusal turns the move
/// into a copy followed by a deletion; anything else is the result.
pub fn after_move_rename(result: Result<(), OperationError>) -> (r: MoveStep)
    ensures
        match result {
            Ok(()) => r matches MoveStep::Done(Ok(())),
            Err(e) => if e matches OperationError::FileSystem {
                kind: crate::filesystem::IoErrorKind::CrossesDevices,
                ..
            } {
                r is CopyInstead
            } else {
                r == MoveStep::Done(Err(e))
            },
        },
{
    match result {
        Ok(()) => MoveStep::Done(Ok(())),
        Err(e) => {
            if e.is_cross_device() {
                MoveStep::CopyInstead
            } else {
                MoveStep::Done(Err(e))
            }
        },
    }
}

/// What follows the copy that replaces a cross-device move.
#[derive(Debug)]
pub enum MoveCopyStep {
    /// Delete the source; the item's result is that of the deletion.
    DeleteSource,
    /// The item is done with this error.
    Done(OperationError),
    /// The batch ends, cancelled, with this one failure: the copy exists
    /// and the source was kept.
    EndCancelled(String),
}

/// After the copy of a cross-device move: a cancellation that came while
/// copying keeps the source; otherwise a finished copy lets the source go.
pub fn after_move_copy(label: &str, result: Result<(), OperationError>, cancelled: bool) -> (r:
    MoveCopyStep)
    ensures
        match result {
            Err(e) => r == MoveCopyStep::Done(e),
            Ok(()) => if cancelled {
                r matches MoveCopyStep::EndCancelled(m) && m@ == failure_line(
                    label@,
                    "cópia concluída, origem preservada porque o cancelamento foi solicitado"@,
                )
            } else {
                r is DeleteSource
            },
        },
{
    match result {
        Err(e) => MoveCopyStep::Done(e),
        Ok(()) => {
            if cancelled {
                MoveCopyStep::EndCancelled(
                    failure_text(
                        label,
                        "cópia concluída, origem preservada porque o cancelamento foi solicitado",
                    ),
                )
            } else {
                MoveCopyStep::DeleteSource
            }
        },
    }
}

/// How a batch of file operations ended.
#[derive(Debug)]
pub struct OperationOutcome {
    pub kind: OperationKind,
    pub completed: usize,
    pub failed: Vec<String>,
    pub cancelled: bool,
}

/// How a batch of conversions ended.
#[derive(Debug)]
pub struct ConversionOutcome {
    pub kind: ConversionKind,
    pub completed: usize,
    pub failed: Vec<String>,
    pub cancelled: bool,
}

/// What the user reads of the first failures: each on its own line, at
/// most three, then how many more there were.
pub open spec fn failure_tail(fs: Seq<Seq<char>>) -> Seq<char> {
    shown_failures(fs.take(if fs.len() > 3 { 3 } else { fs.len() as int })) + (if fs.len() > 3 {
        "\n… e mais "@ + decimal((fs.len() - 3) as nat) + " falha(s)."@
    } else {
        Seq::empty()
    })
}

/// Each failure on a line of its own.
pub open spec fn shown_failures(fs: Seq<Seq<char>>) -> Seq<char>
    decreases fs.len(),
{
    if fs.len() == 0 {
        Seq::empty()
    } else {
        shown_failures(fs.drop_last()) + "\n"@ + fs.last()
    }
}

fn push_failure_tail(out: &mut Vec<char>, failed: &Vec<String>)
    ensures
        final(out)@ == old(out)@ + failure_tail(views(failed@)),
{
    let n = failed.len();
    let shown = if n > 3 {
        3
    } else {
        n
    };
    let mut i: usize = 0;
    while i < shown
        invariant
            i <= shown <= failed@.len(),
            shown == (if failed@.len() > 3 { 3 } else { failed@.len() }),
            out@ == old(out)@ + shown_failures(views(failed@).take(i as int)),
        decreases shown - i,
    {
        let ghost before = out@;
        extend_str(out, "\n");
        extend_str(out, failed[i].as_str());
        proof {
            let t1 = views(failed@).take(i + 1);
            assert(t1.drop_last() =~= views(failed@).take(i as int));
            assert(t1.last() == failed@[i as int]@);
            assert(out@ =~= old(out)@ + shown_failures(t1));
        }
        i = i + 1;
    }
    if n > 3 {
        extend_str(out, "\n… e mais ");
        push_decimal(out, (n - 3) as u64);
        extend_str(out, " falha(s).");
    }
    assert(out@ =~= old(out)@ + failure_tail(views(failed@)));
}

/// The noun of an operation, as the summary begins.
pub open spec fn action_of(kind: OperationKind) -> Seq<char> {
    match kind {
        OperationKind::Copy => "cópia"@,
        OperationKind::Move => "movimentação"@,
        OperationKind::Rename => "renomeação"@,
        OperationKind::Delete => "exclusão"@,
        OperationKind::CreateDirectory => "criação de pasta"@,
    }
}

fn action_name(kind: OperationKind) -> (r: &'static str)
    ensures
        r@ == action_of(kind),
{
    match kind {
        OperationKind::Copy => "cópia",
        OperationKind::Move => "movimentação",
        OperationKind::Rename => "renomeação",
        OperationKind::Delete => "exclusão",
        OperationKind::CreateDirectory => "criação de pasta",
    }
}

/// The counts part of an unfinished or partial summary.
pub open spec fn counts(completed: nat, failures: nat) -> Seq<char> {
    decimal(completed) + " item(ns) concluído(s), "@ + decimal(failures) + " falha(s)."@
}

fn push_counts(out: &mut Vec<char>, completed: usize, failures: usize)
    ensures
        final(out)@ == old(out)@ + counts(completed as nat, failures as nat),
{
    push_decimal(out, completed as u64);
    extend_str(out, " item(ns) concluído(s), ");
    push_decimal(out, failures as u64);
    extend_str(out, " falha(s).");
    assert(out@ =~= old(out)@ + counts(completed as nat, failures as nat));
}

impl OperationOutcome {
    /// The summary shown when the batch ends.
    pub open spec fn message_of(&self) -> Seq<char> {
        (if self.cancelled {
            "Operação cancelada: "@ + counts(self.completed as nat, self.failed@.len())
        } else if self.failed@.len() == 0 {
            action_of(self.kind) + " concluída: "@ + decimal(self.completed as nat)
                + " item(ns)."@
        } else {
            action_of(self.kind) + " concluída parcialmente: "@ + counts(
                self.completed as nat,
                self.failed@.len(),
            )
        }) + failure_tail(views(self.failed@))
    }

    /// The summary shown when the batch ends.
    pub fn message(&self) -> (r: String)
        ensures
            r@ == self.message_of(),
    {
        let mut out: Vec<char> = Vec::new();
        if self.cancelled {
            extend_str(&mut out, "Operação cancelada: ");
            push_counts(&mut out, self.completed, self.failed.len());
        } else if self.failed.len() == 0 {
            extend_str(&mut out, action_name(self.kind));
            extend_str(&mut out, " concluída: ");
            push_decimal(&mut out, self.completed as u64);
            extend_str(&mut out, " item(ns).");
        } else {
            extend_str(&mut out, action_name(self.kind));
            extend_str(&mut out, " concluída parcialmente: ");
            push_counts(&mut out, self.completed, self.failed.len());
        }
        let ghost head = out@;
        push_failure_tail(&mut out, &self.failed);
        assert(out@ =~= self.message_of());
        string_of(&out)
    }

    /// The status line shown when the batch ends.
    pub open spec fn status_of(&self) -> Seq<char> {
        if self.cancelled {
            "Operação cancelada; a pasta será atualizada."@
        } else if self.failed@.len() == 0 {
            "Operação concluída; a pasta será atualizada."@
        } else {
            "Operação concluída parcialmente; verifique o resultado."@
        }
    }

    /// The status line shown when the batch ends.
    pub fn status(&self) -> (r: String)
        ensures
            r@ == self.status_of(),
    {
        if self.cancelled {
            String::from_str("Operação cancelada; a pasta será atualizada.")
        } else if self.failed.len() == 0 {
            String::from_str("Operação concluída; a pasta será atualizada.")
        } else {
            String::from_str("Operação concluída parcialmente; verifique o resultado.")
        }
    }
}

impl ConversionOutcome {
    /// The summary shown when the batch ends.
    pub open spec fn message_of(&self) -> Seq<char> {
        (if self.cancelled {
            "Conversão cancelada: "@ + counts(self.completed as nat, self.failed@.len())
        } else if self.failed@.len() == 0 {
            "Conversão para "@ + self.kind.label_of() + " concluída: "@ + decimal(
                self.completed as nat,
            ) + " item(ns)."@
        } else {
            "Conversão para "@ + self.kind.label_of() + " concluída parcialmente: "@ + counts(
                self.completed as nat,
                self.failed@.len(),
            )
        }) + failure_tail(views(self.failed@))
    }

    /// The summary shown when the batch ends.
    pub fn message(&self) -> (r: String)
        ensures
            r@ == self.message_of(),
    {
        let mut out: Vec<char> = Vec::new();
        if self.cancelled {
            extend_str(&mut out, "Conversão cancelada: ");
            push_counts(&mut out, self.completed, self.failed.len());
        } else if self.failed.len() == 0 {
            extend_str(&mut out, "Conversão para ");
            extend_str(&mut out, self.kind.label());
            extend_str(&mut out, " concluída: ");
            push_decimal(&mut out, self.completed as u64);
            extend_str(&mut out, " item(ns).");
        } else {
            extend_str(&mut out, "Conversão para ");
            extend_str(&mut out, self.kind.label());
            extend_str(&mut out, " concluída parcialmente: ");
            push_counts(&mut out, self.completed, self.failed.len());
        }
        push_failure_tail(&mut out, &self.failed);
        assert(out@ =~= self.message_of());
        string_of(&out)
    }

    /// The status line shown when the batch ends.
    pub open spec fn status_of(&self) -> Seq<char> {
        if self.cancelled {
            "Conversão cancelada; a pasta será atualizada."@
        } else if self.failed@.len() == 0 {
            "Conversão concluída; a pasta será atualizada."@
        } else {
            "Conversão concluída parcialmente; verifique o resultado."@
        }
    }

    /// The status line shown when the batch ends.
    pub fn status(&self) -> (r: String)
        ensures
            r@ == self.status_of(),
    {
        if self.cancelled {
            String::from_str("Conversão cancelada; a pasta será atualizada.")
        } else if self.failed.len() == 0 {
            String::from_str("Conversão concluída; a pasta será atualizada.")
        } else {
            String::from_str("Conversão concluída parcialmente; verifique o resultado.")
        }
    }
}

/// What a batch does next: stop (cancelled or not), or run the item at
/// this index.
#[derive(Debug, Clone, Copy, PartialEq, Eq, Structural)]
pub enum NextItem {
    Stop { cancelled: bool },
    Run(usize),
}

/// What one recorded item did to a batch: it was done, it failed with
/// this failure line, or it was cancelled.
pub enum ItemResult {
    Done,
    Failed(Seq<char>),
    Cancelled,
}

/// What a batch has counted: items recorded, items done, and the failure
/// lines kept.
pub open spec fn tally_after(
    t: (nat, nat, Seq<Seq<char>>),
    item: ItemResult,
) -> (nat, nat, Seq<Seq<char>>) {
    match item {
        ItemResult::Done => (t.0 + 1, t.1 + 1, t.2),
        ItemResult::Failed(line) => (t.0 + 1, t.1, t.2.push(line)),
        ItemResult::Cancelled => t,
    }
}

/// The count after recording each of `items` in turn.
pub open spec fn tally_run(t: (nat, nat, Seq<Seq<char>>), items: Seq<ItemResult>) -> (
    nat,
    nat,
    Seq<Seq<char>>,
)
    decreases items.len(),
{
    if items.len() == 0 {
        t
    } else {
        tally_after(tally_run(t, items.drop_last()), items.last())
    }
}

/// How many of `items` were done.
pub open spec fn done_count(items: Seq<ItemResult>) -> nat
    decreases items.len(),
{
    if items.len() == 0 {
        0
    } else {
        done_count(items.drop_last()) + if items.last() is Done {
            1nat
        } else {
            0nat
        }
    }
}

/// The failure lines among `items`, in order.
pub open spec fn failure_lines(items: Seq<ItemResult>) -> Seq<Seq<char>>
    decreases items.len(),
{
    if items.len() == 0 {
        Seq::empty()
    } else {
        failure_lines(items.drop_last()) + match items.last() {
            ItemResult::Failed(line) => seq![line],
            _ => Seq::empty(),
        }
    }
}

/// What recording the result of a file operation on an item shown as
/// `label` counts.
pub open spec fn operation_item(label: Seq<char>, result: Result<(), OperationError>) -> ItemResult {
    match result {
        Ok(()) => ItemResult::Done,
        Err(OperationError::Cancelled) => ItemResult::Cancelled,
        Err(e) => ItemResult::Failed(failure_line(label, e.text_of())),
    }
}

/// What recording the result of a conversion of an item shown as `label`
/// counts.
pub open spec fn conversion_item(label: Seq<char>, result: Result<(), ConversionError>) -> ItemResult {
    match result {
        Ok(()) => ItemResult::Done,
        Err(ConversionError::Cancelled) => ItemResult::Cancelled,
        Err(e) => ItemResult::Failed(failure_line(label, e.text_of())),
    }
}

/// A whole batch's accounting: starting from nothing and recording the
/// results of a batch's items in turn, none of them cancelled, every item
/// is counted once, as done or as failed; the done count is the number of
/// successes and the failure lines are those of the failures, in order.
/// With as many results as the batch has items, `next_item` then stops
/// the batch, not cancelled, and `finish` reports these counts, so done
/// plus failed equals the number of sources.
pub proof fn law_batch_accounting(items: Seq<ItemResult>)
    requires
        forall|i: int| 0 <= i < items.len() ==> !(#[trigger] items[i] is Cancelled),
    ensures
        tally_run((0, 0, Seq::empty()), items).0 == items.len(),
        tally_run((0, 0, Seq::empty()), items).1 == done_count(items),
        tally_run((0, 0, Seq::empty()), items).2 == failure_lines(items),
        tally_run((0, 0, Seq::empty()), items).1 + tally_run((0, 0, Seq::empty()), items).2.len()
            == items.len(),
    decreases items.len(),
{
    if items.len() > 0 {
        let rest = items.drop_last();
        assert forall|i: int| 0 <= i < rest.len() implies !(#[trigger] rest[i] is Cancelled) by {
            assert(rest[i] == items[i]);
        }
        law_batch_accounting(rest);
        assert(!(items[items.len() - 1] is Cancelled));
        match items.last() {
            ItemResult::Failed(line) => {
                assert(failure_lines(items) =~= failure_lines(rest).push(line));
            },
            _ => {
                assert(failure_lines(items) =~= failure_lines(rest));
            },
        }
    }
}

/// What recording one item's result leads to.
#[derive(Debug)]
pub enum RecordStep {
    /// The item succeeded: show this progress.
    Progress(OperationUpdate),
    /// The item failed; its failure was kept.
    Failed,
    /// The item was cancelled: the batch ends, cancelled.
    Cancelled,
}

/// The counts kept while a batch of file operations runs.
#[derive(Debug)]
pub struct OperationRun {
    kind: OperationKind,
    total: usize,
    seen: usize,
    completed: usize,
    failed: Vec<String>,
}

impl OperationRun {
    pub closed spec fn kind_of(&self) -> OperationKind {
        self.kind
    }

    /// Items in the batch.
    pub closed spec fn total_of(&self) -> nat {
        self.total as nat
    }

    /// Items whose result was recorded.
    pub closed spec fn seen_of(&self) -> nat {
        self.seen as nat
    }

    /// Items done.
    pub closed spec fn completed_of(&self) -> nat {
        self.completed as nat
    }

    /// Failure lines kept, in order.
    pub closed spec fn failures(&self) -> Seq<Seq<char>> {
        views(self.failed@)
    }

    /// Items recorded, items done, and failure lines kept.
    pub closed spec fn tally_of(&self) -> (nat, nat, Seq<Seq<char>>) {
        (self.seen as nat, self.completed as nat, views(self.failed@))
    }

    /// Every recorded item is either done or failed, and no more items
    /// were recorded than the batch holds.
    pub closed spec fn wf(&self) -> bool {
        self.completed + self.failed@.len() == self.seen && self.seen <= self.total
    }

    /// A batch over the sources of `request`, nothing done yet.
    pub fn new(request: &OperationRequest) -> (r: OperationRun)
        ensures
            r.kind_of() == request.kind,
            r.total_of() == request.sources@.len(),
            r.seen_of() == 0,
            r.completed_of() == 0,
            r.failures() == Seq::<Seq<char>>::empty(),
            r.tally_of() == (0nat, 0nat, Seq::<Seq<char>>::empty()),
            r.wf(),
    {
        let r = OperationRun {
            kind: request.kind,
            total: request.sources.len(),
            seen: 0,
            completed: 0,
            failed: Vec::new(),
        };
        assert(views(r.failed@) =~= Seq::<Seq<char>>::empty());
        r
    }

    /// Records the result of item `index`, shown as `label`.
    pub fn record(&mut self, index: usize, label: &str, result: Result<(), OperationError>) -> (r:
        RecordStep)
        requires
            old(self).wf(),
            old(self).seen_of() < old(self).total_of(),
            index < old(self).total_of(),
        ensures
            final(self).wf(),
            final(self).kind_of() == old(self).kind_of(),
            final(self).total_of() == old(self).total_of(),
            final(self).tally_of() == tally_after(old(self).tally_of(), operation_item(label@, result)),
            match result {
                Ok(()) => (r matches RecordStep::Progress(u) && u.completed_items == index + 1
                    && u.total_items == old(self).total_of() && u.current_bytes == 0
                    && u.current_total_bytes == 0 && u.explicit_percent is None && u.label@
                    == label@) && final(self).completed_of() == old(self).completed_of() + 1
                    && final(self).failures() == old(self).failures() && final(self).seen_of()
                    == old(self).seen_of() + 1,
                Err(OperationError::Cancelled) => r is Cancelled && final(self).completed_of()
                    == old(self).completed_of() && final(self).failures() == old(self).failures()
                    && final(self).seen_of() == old(self).seen_of(),
                Err(e) => r is Failed && final(self).completed_of() == old(self).completed_of()
                    && final(self).failures() == old(self).failures().push(
                    failure_line(label@, e.text_of()),
                ) && final(self).seen_of() == old(self).seen_of() + 1,
            },
    {
        match result {
            Ok(()) => {
                self.completed = self.completed + 1;
                self.seen = self.seen + 1;
                RecordStep::Progress(item_progress(index + 1, self.total, label, 0, 0))
            },
            Err(OperationError::Cancelled) => RecordStep::Cancelled,
            Err(e) => {
                let reason = e.message();
                let line = failure_text(label, reason.as_str());
                let ghost before = self.failed@;
                self.failed.push(line);
                self.seen = self.seen + 1;
                assert(views(self.failed@) =~= views(before).push(
                    failure_line(label@, e.text_of()),
                ));
                RecordStep::Failed
            },
        }
    }

    /// What the batch does next: a cancellation asked for before an item
    /// stops it, cancelled; otherwise the next unrecorded item runs, and
    /// once every item was recorded the batch stops, each item counted as
    /// done or failed.
    pub fn next_item(&self, cancelled: bool) -> (r: NextItem)
        requires
            self.wf(),
        ensures
            cancelled ==> r == (NextItem::Stop { cancelled: true }),
            !cancelled && self.seen_of() < self.total_of() ==> (r matches NextItem::Run(i) && i == self.seen_of()),
            !cancelled && self.seen_of() == self.total_of() ==> r == (NextItem::Stop { cancelled: false })
                && self.completed_of() + self.failures().len() == self.total_of(),
    {
        if cancelled {
            NextItem::Stop { cancelled: true }
        } else if self.seen < self.total {
            NextItem::Run(self.seen)
        } else {
            NextItem::Stop { cancelled: false }
        }
    }

    /// The batch's end, cancelled or not, with what was counted.
    pub fn finish(self, cancelled: bool) -> (r: OperationOutcome)
        requires
            self.wf(),
        ensures
            r.kind == self.kind_of(),
            r.completed == self.completed_of(),
            views(r.failed@) == self.failures(),
            r.cancelled == cancelled,
            r.completed + r.failed@.len() == self.seen_of(),
            r.completed + r.failed@.len() <= self.total_of(),
    {
        OperationOutcome {
            kind: self.kind,
            completed: self.completed,
            failed: self.failed,
            cancelled,
        }
    }

    /// The batch's end with one failure in place of those kept.
    pub fn end_with(self, failure: String, cancelled: bool) -> (r: OperationOutcome)
        ensures
            r.kind == self.kind_of(),
            r.completed == self.completed_of(),
            views(r.failed@) == seq![failure@],
            r.cancelled == cancelled,
    {
        let mut failed: Vec<String> = Vec::new();
        let ghost f = failure@;
        failed.push(failure);
        assert(views(failed@) =~= seq![f]);
        OperationOutcome { kind: self.kind, completed: self.completed, failed, cancelled }
    }
}

/// The counts kept while a batch of conversions runs.
#[derive(Debug)]
pub struct ConversionRun {
    kind: ConversionKind,
    total: usize,
    seen: usize,
    completed: usize,
    failed: Vec<String>,
}

impl ConversionRun {
    pub closed spec fn kind_of(&self) -> ConversionKind {
        self.kind
    }

    /// Items in the batch.
    pub closed spec fn total_of(&self) -> nat {
        self.total as nat
    }

    /// Items whose result was recorded.
    pub closed spec fn seen_of(&self) -> nat {
        self.seen as nat
    }

    /// Items done.
    pub closed spec fn completed_of(&self) -> nat {
        self.completed as nat
    }

    /// Failure lines kept, in order.
    pub closed spec fn failures(&self) -> Seq<Seq<char>> {
        views(self.failed@)
    }

    /// Items recorded, items done, and failure lines kept.
    pub closed spec fn tally_of(&self) -> (nat, nat, Seq<Seq<char>>) {
        (self.seen as nat, self.completed as nat, views(self.failed@))
    }

    /// Every recorded item is either done or failed, and no more items
    /// were recorded than the batch holds.
    pub closed spec fn wf(&self) -> bool {
        self.completed + self.failed@.len() == self.seen && self.seen <= self.total
    }

    /// A batch over the sources of `request`, nothing done yet.
    pub fn new(request: &ConversionRequest) -> (r: ConversionRun)
        ensures
            r.kind_of() == request.kind,
            r.total_of() == request.sources@.len(),
            r.seen_of() == 0,
            r.completed_of() == 0,
            r.failures() == Seq::<Seq<char>>::empty(),
            r.tally_of() == (0nat, 0nat, Seq::<Seq<char>>::empty()),
            r.wf(),
    {
        let r = ConversionRun {
            kind: request.kind,
            total: request.sources.len(),
            seen: 0,
            completed: 0,
            failed: Vec::new(),
        };
        assert(views(r.failed@) =~= Seq::<Seq<char>>::empty());
        r
    }

    /// Records the result of item `index`, shown as `label`.
    pub fn record(&mut self, index: usize, label: &str, result: Result<(), ConversionError>) -> (r:
        RecordStep)
        requires
            old(self).wf(),
            old(self).seen_of() < old(self).total_of(),
            index < old(self).total_of(),
        ensures
            final(self).wf(),
            final(self).kind_of() == old(self).kind_of(),
            final(self).total_of() == old(self).total_of(),
            final(self).tally_of() == tally_after(old(self).tally_of(), conversion_item(label@, result)),
            match result {
                Ok(()) => (r matches RecordStep::Progress(u) && u.completed_items == index + 1
                    && u.total_items == old(self).total_of() && u.current_bytes == 0
                    && u.current_total_bytes == 0 && u.explicit_percent is None && u.label@
                    == label@) && final(self).completed_of() == old(self).completed_of() + 1
                    && final(self).failures() == old(self).failures() && final(self).seen_of()
                    == old(self).seen_of() + 1,
                Err(ConversionError::Cancelled) => r is Cancelled && final(self).completed_of()
                    == old(self).completed_of() && final(self).failures() == old(self).failures()
                    && final(self).seen_of() == old(self).seen_of(),
                Err(e) => r is Failed && final(self).completed_of() == old(self).completed_of()
                    && final(self).failures() == old(self).failures().push(
                    failure_line(label@, e.text_of()),
                ) && final(self).seen_of() == old(self).seen_of() + 1,
            },
    {
        match result {
            Ok(()) => {
                self.completed = self.completed + 1;
                self.seen = self.seen + 1;
                RecordStep::Progress(item_progress(index + 1, self.total, label, 0, 0))
            },
            Err(ConversionError::Cancelled) => RecordStep::Cancelled,
            Err(e) => {
                let reason = e.message();
                let line = failure_text(label, reason.as_str());
                let ghost before = self.failed@;
                self.failed.push(line);
                self.seen = self.seen + 1;
                assert(views(self.failed@) =~= views(before).push(
                    failure_line(label@, e.text_of()),
                ));
                RecordStep::Failed
            },
        }
    }

    /// What the batch does next: a cancellation asked for before an item
    /// stops it, cancelled; otherwise the next unrecorded item runs, and
    /// once every item was recorded the batch stops, each item counted as
    /// done or failed.
    pub fn next_item(&self, cancelled: bool) -> (r: NextItem)
        requires
            self.wf(),
        ensures
            cancelled ==> r == (NextItem::Stop { cancelled: true }),
            !cancelled && self.seen_of() < self.total_of() ==> (r matches NextItem::Run(i) && i == self.seen_of()),
            !cancelled && self.seen_of() == self.total_of() ==> r == (NextItem::Stop { cancelled: false })
                && self.completed_of() + self.failures().len() == self.total_of(),
    {
        if cancelled {
            NextItem::Stop { cancelled: true }
        } else if self.seen < self.total {
            NextItem::Run(self.seen)
        } else {
            NextItem::Stop { cancelled: false }
        }
    }

    /// The batch's end, cancelled or not, with what was counted.
    pub fn finish(self, cancelled: bool) -> (r: ConversionOutcome)
        requires
            self.wf(),
        ensures
            r.kind == self.kind_of(),
            r.completed == self.completed_of(),
            views(r.failed@) == self.failures(),
            r.cancelled == cancelled,
            r.completed + r.failed@.len() == self.seen_of(),
            r.completed + r.failed@.len() <= self.total_of(),
    {
        ConversionOutcome {
            kind: self.kind,
            completed: self.completed,
            failed: self.failed,
            cancelled,
        }
    }
}

} // verus!
