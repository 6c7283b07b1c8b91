//! The memory manager window's logic: its commands, its kind filter, and the
//! rows that each view lists (saved, pending, deleted, filtered by kind and by
//! a case-insensitive search; the audit log as it comes).
//!
//! The controls, the confirmation dialog and the database calls are the
//! caller's.
use vstd::prelude::*;
use crate::json::{push_signed, signed_decimal};
use crate::memory::{lowercase, to_lowercase, Memory, PendingChange};
use crate::text::{chars_of, contains, is_blank, is_blank_str, push_str, str_contains, str_eq};

verus! {

/// The lists that the window shows.
#[derive(Debug, Clone, Copy, PartialEq, Eq, Structural)]
pub enum MemoryView {
    Active,
    Pending,
    Deleted,
    Audit,
}

/// Control ids of the window.
pub const ID_LIST: i32 = 2001;
pub const ID_EDIT: i32 = 2002;
pub const ID_STATUS: i32 = 2003;
pub const ID_SEARCH: i32 = 2004;
pub const ID_KIND: i32 = 2005;
pub const ID_REFRESH: i32 = 2100;
pub const ID_DELETE: i32 = 2101;
pub const ID_PIN: i32 = 2102;
pub const ID_UNPIN: i32 = 2103;
pub const ID_RESTORE: i32 = 2104;
pub const ID_ACCEPT: i32 = 2105;
pub const ID_REJECT: i32 = 2106;
pub const ID_EDIT_SAVE: i32 = 2107;
pub const ID_EXPORT: i32 = 2108;
pub const ID_BACKUP: i32 = 2109;
pub const ID_VIEW_ACTIVE: i32 = 2200;
pub const ID_VIEW_PENDING: i32 = 2201;
pub const ID_VIEW_DELETED: i32 = 2202;
pub const ID_VIEW_AUDIT: i32 = 2203;

/// What a control's command asks for.
#[derive(Debug, Clone, Copy, PartialEq, Eq, Structural)]
pub enum MgrCommand {
    SetView(MemoryView),
    Refresh,
    /// Soft-delete the selection, after the user confirms.
    Delete,
    Pin,
    Unpin,
    Restore,
    Accept,
    Reject,
    SaveEdit,
    Export,
    Backup,
    Nothing,
}

/// The command of a control id.
pub open spec fn spec_command_for(id: i32) -> MgrCommand {
    if id == ID_VIEW_ACTIVE {
        MgrCommand::SetView(MemoryView::Active)
    } else if id == ID_VIEW_PENDING {
        MgrCommand::SetView(MemoryView::Pending)
    } else if id == ID_VIEW_DELETED {
        MgrCommand::SetView(MemoryView::Deleted)
    } else if id == ID_VIEW_AUDIT {
        MgrCommand::SetView(MemoryView::Audit)
    } else if id == ID_REFRESH || id == ID_SEARCH || id == ID_KIND {
        MgrCommand::Refresh
    } else if id == ID_DELETE {
        MgrCommand::Delete
    } else if id == ID_PIN {
        MgrCommand::Pin
    } else if id == ID_UNPIN {
        MgrCommand::Unpin
    } else if id == ID_RESTORE {
        MgrCommand::Restore
    } else if id == ID_ACCEPT {
        MgrCommand::Accept
    } else if id == ID_REJECT {
        MgrCommand::Reject
    } else if id == ID_EDIT_SAVE {
        MgrCommand::SaveEdit
    } else if id == ID_EXPORT {
        MgrCommand::Export
    } else if id == ID_BACKUP {
        MgrCommand::Backup
    } else {
        MgrCommand::Nothing
    }
}

/// The command that a control sends.
pub fn command_for(id: i32) -> (r: MgrCommand)
    ensures
        r == spec_command_for(id),
{
    if id == ID_VIEW_ACTIVE {
        MgrCommand::SetView(MemoryView::Active)
    } else if id == ID_VIEW_PENDING {
        MgrCommand::SetView(MemoryView::Pending)
    } else if id == ID_VIEW_DELETED {
        MgrCommand::SetView(MemoryView::Deleted)
    } else if id == ID_VIEW_AUDIT {
        MgrCommand::SetView(MemoryView::Audit)
    } else if id == ID_REFRESH || id == ID_SEARCH || id == ID_KIND {
        MgrCommand::Refresh
    } else if id == ID_DELETE {
        MgrCommand::Delete
    } else if id == ID_PIN {
        MgrCommand::Pin
    } else if id == ID_UNPIN {
        MgrCommand::Unpin
    } else if id == ID_RESTORE {
        MgrCommand::Restore
    } else if id == ID_ACCEPT {
        MgrCommand::Accept
    } else if id == ID_REJECT {
        MgrCommand::Reject
    } else if id == ID_EDIT_SAVE {
        MgrCommand::SaveEdit
    } else if id == ID_EXPORT {
        MgrCommand::Export
    } else if id == ID_BACKUP {
        MgrCommand::Backup
    } else {
        MgrCommand::Nothing
    }
}

/// The status line after a command done on the selected row (`None`: there
/// was no selection, or the deletion was not confirmed, and nothing changes).
pub open spec fn spec_done_message(cmd: MgrCommand, selected: bool, confirmed: bool) -> Option<
    Seq<char>,
> {
    if !selected {
        None
    } else {
        match cmd {
            MgrCommand::Delete => if confirmed {
                Some("已删除（可在「已删除」恢复）"@)
            } else {
                None
            },
            MgrCommand::Pin => Some("已 Pin"@),
            MgrCommand::Unpin => Some("已 Unpin"@),
            MgrCommand::Restore => Some("已恢复"@),
            MgrCommand::Accept => Some("已接受"@),
            MgrCommand::Reject => Some("已拒绝"@),
            _ => None,
        }
    }
}

/// The status line for a command on the selection.
pub fn done_message(cmd: MgrCommand, selected: bool, confirmed: bool) -> (r: Option<&'static str>)
    ensures
        match spec_done_message(cmd, selected, confirmed) {
            Some(m) => r is Some && r->0@ == m,
            None => r is None,
        },
{
    if !selected {
        return None;
    }
    match cmd {
        MgrCommand::Delete => if confirmed {
            Some("已删除（可在「已删除」恢复）")
        } else {
            None
        },
        MgrCommand::Pin => Some("已 Pin"),
        MgrCommand::Unpin => Some("已 Unpin"),
        MgrCommand::Restore => Some("已恢复"),
        MgrCommand::Accept => Some("已接受"),
        MgrCommand::Reject => Some("已拒绝"),
        _ => None,
    }
}

/// What saving an edit does: update the selected memory with the text, or
/// ask for a selection and a text.
#[derive(Debug, Clone, Copy, PartialEq, Eq, Structural)]
pub enum EditSave {
    Update(i64),
    NeedSelection,
}

/// Saving an edit needs a selected row and a text that is not blank.
pub fn edit_save(selected: Option<i64>, text: &str) -> (r: EditSave)
    ensures
        selected is Some && !is_blank(text@) ==> r == EditSave::Update(selected->0),
        selected is None || is_blank(text@) ==> r == EditSave::NeedSelection,
{
    match selected {
        Some(i) => if is_blank_str(text) {
            EditSave::NeedSelection
        } else {
            EditSave::Update(i)
        },
        None => EditSave::NeedSelection,
    }
}

/// The kind filter at a position of the kind list (`all` for any other).
pub open spec fn spec_kind_filter(index: isize) -> Seq<char> {
    if index == 1 {
        "fact"@
    } else if index == 2 {
        "preference"@
    } else if index == 3 {
        "project"@
    } else if index == 4 {
        "relationship"@
    } else if index == 5 {
        "custom"@
    } else {
        "all"@
    }
}

/// The kind selected in the kind list.
pub fn kind_filter(index: isize) -> (r: &'static str)
    ensures
        r@ == spec_kind_filter(index),
{
    if index == 1 {
        "fact"
    } else if index == 2 {
        "preference"
    } else if index == 3 {
        "project"
    } else if index == 4 {
        "relationship"
    } else if index == 5 {
        "custom"
    } else {
        "all"
    }
}

/// A row passes the search when the search is empty or the lower-cased
/// content contains it.
pub open spec fn passes_search(content: Seq<char>, search: Seq<char>) -> bool {
    search.len() == 0 || contains(lowercase(content), search)
}

/// The search text as it is compared: lower-cased.
pub open spec fn search_key(search: Seq<char>) -> Seq<char> {
    lowercase(search)
}

/// Which memories pass the search.
pub open spec fn spec_memory_hits(ms: Seq<Memory>, key: Seq<char>) -> Seq<bool> {
    Seq::new(ms.len(), |i: int| passes_search(ms[i].content@, key))
}

/// Which pending changes pass the search.
pub open spec fn spec_pending_hits(ps: Seq<PendingChange>, key: Seq<char>) -> Seq<bool> {
    Seq::new(ps.len(), |i: int| passes_search(ps[i].content@, key))
}

/// The line of a saved memory: `#<id> [<kind>]` and ` [pin]` when pinned,
/// then the content.
pub open spec fn active_line(m: Memory) -> Seq<char> {
    "#"@ + signed_decimal(m.id as int) + " ["@ + m.kind@ + "]"@ + (if m.pinned {
        " [pin]"@
    } else {
        Seq::empty()
    }) + " "@ + m.content@
}

/// The line of a deleted memory: `#<id> [<kind>] <content>`.
pub open spec fn deleted_line(m: Memory) -> Seq<char> {
    "#"@ + signed_decimal(m.id as int) + " ["@ + m.kind@ + "] "@ + m.content@
}

/// The line of a pending change: `p#<id> [<action>]`, ` -><target>` when it
/// targets a memory, then the content.
pub open spec fn pending_line(p: PendingChange) -> Seq<char> {
    "p#"@ + signed_decimal(p.id as int) + " ["@ + p.action@ + "]"@ + (match p.target_id {
        Some(t) => " ->#"@ + signed_decimal(t as int),
        None => Seq::empty(),
    }) + " "@ + p.content@
}

/// The rows of the saved-memories view: `(id, line)` of each memory of the
/// kind (any kind for `all`) that passes the search (`hits`), in list order.
pub open spec fn spec_active_rows(ms: Seq<Memory>, hits: Seq<bool>, kind: Seq<char>) -> Seq<
    (i64, Seq<char>),
>
    decreases ms.len(),
{
    if ms.len() == 0 {
        Seq::empty()
    } else {
        let rest = spec_active_rows(ms.drop_last(), hits.drop_last(), kind);
        let m = ms.last();
        if (kind == "all"@ || m.kind@ == kind) && hits.last() {
            rest.push((m.id, active_line(m)))
        } else {
            rest
        }
    }
}

/// The rows of the deleted-memories view.
pub open spec fn spec_deleted_rows(ms: Seq<Memory>, hits: Seq<bool>) -> Seq<(i64, Seq<char>)>
    decreases ms.len(),
{
    if ms.len() == 0 {
        Seq::empty()
    } else {
        let rest = spec_deleted_rows(ms.drop_last(), hits.drop_last());
        let m = ms.last();
        if hits.last() {
            rest.push((m.id, deleted_line(m)))
        } else {
            rest
        }
    }
}

/// The rows of the pending-changes view.
pub open spec fn spec_pending_rows(ps: Seq<PendingChange>, hits: Seq<bool>) -> Seq<
    (i64, Seq<char>),
>
    decreases ps.len(),
{
    if ps.len() == 0 {
        Seq::empty()
    } else {
        let rest = spec_pending_rows(ps.drop_last(), hits.drop_last());
        let p = ps.last();
        if hits.last() {
            rest.push((p.id, pending_line(p)))
        } else {
            rest
        }
    }
}

/// The view of a list of rows.
pub open spec fn rows_view(rows: Seq<(i64, String)>) -> Seq<(i64, Seq<char>)> {
    rows.map_values(|r: (i64, String)| (r.0, r.1@))
}

proof fn lemma_rows_push(rows: Seq<(i64, String)>, r: (i64, String))
    ensures
        rows_view(rows.push(r)) == rows_view(rows).push((r.0, r.1@)),
{
    assert(rows_view(rows.push(r)) =~= rows_view(rows).push((r.0, r.1@)));
}

/// One audit-log entry: time, action, memory id, content before and after.
pub type AuditEntry = (String, String, Option<i64>, Option<String>, Option<String>);

/// `format!("{:?}", s)` on a string slice: the quoted, escaped text.
pub uninterp spec fn debug_text(s: Seq<char>) -> Seq<char>;

/// `format!("{:?}", s)` on a string slice.
///
/// The contract names the result only: it depends on the text alone; the
/// escaping rules (which follow Unicode tables) are not stated.
#[verifier::external_body]
fn debug_quote(s: &str) -> (r: String)
    ensures
        r@ == debug_text(s@),
{
    format!("{:?}", s)
}

/// How `{:?}` writes an optional id: `Some(n)` or `None`.
pub open spec fn debug_opt_id(m: Option<i64>) -> Seq<char> {
    match m {
        Some(i) => "Some("@ + signed_decimal(i as int) + ")"@,
        None => "None"@,
    }
}

/// How `{:?}` writes an optional text: `Some("…")` or `None`.
pub open spec fn debug_opt_text(t: Option<String>) -> Seq<char> {
    match t {
        Some(s) => "Some("@ + debug_text(s@) + ")"@,
        None => "None"@,
    }
}

/// An audit row: `time action #id before->after`, the id and the contents
/// as `{:?}` writes them.
pub open spec fn audit_line(e: AuditEntry) -> Seq<char> {
    e.0@ + " "@ + e.1@ + " #"@ + debug_opt_id(e.2) + " "@ + debug_opt_text(e.3) + "->"@
        + debug_opt_text(e.4)
}

/// Rows of the audit view: every entry in order, none selectable (id 0).
pub open spec fn spec_audit_rows(es: Seq<AuditEntry>) -> Seq<(i64, Seq<char>)> {
    Seq::new(es.len(), |i: int| (0i64, audit_line(es[i])))
}

fn push_debug_opt_text(s: &mut String, t: &Option<String>)
    ensures
        final(s)@ == old(s)@ + debug_opt_text(*t),
{
    match t {
        Some(v) => {
            push_str(s, "Some(");
            let q = debug_quote(v.as_str());
            push_str(s, q.as_str());
            push_str(s, ")");
        },
        None => push_str(s, "None"),
    }
}

/// Rows of the audit view, for the entries that the log gave.
pub fn audit_rows(entries: &[AuditEntry]) -> (r: Vec<(i64, String)>)
    ensures
        rows_view(r@) == spec_audit_rows(entries@),
{
    let mut out: Vec<(i64, String)> = Vec::new();
    let mut i: usize = 0;
    while i < entries.len()
        invariant
            i <= entries@.len(),
            rows_view(out@) == spec_audit_rows(entries@.take(i as int)),
        decreases entries@.len() - i,
    {
        let e = &entries[i];
        let mut line = e.0.clone();
        push_str(&mut line, " ");
        push_str(&mut line, e.1.as_str());
        push_str(&mut line, " #");
        match e.2 {
            Some(id) => {
                push_str(&mut line, "Some(");
                push_signed(&mut line, id);
                push_str(&mut line, ")");
            },
            None => push_str(&mut line, "None"),
        }
        push_str(&mut line, " ");
        push_debug_opt_text(&mut line, &e.3);
        push_str(&mut line, "->");
        push_debug_opt_text(&mut line, &e.4);
        assert(line@ =~= audit_line(*e));
        let ghost out0 = out@;
        out.push((0, line));
        proof {
            lemma_rows_push(out0, (0i64, line));
            assert(spec_audit_rows(entries@.take(i + 1)) =~= spec_audit_rows(
                entries@.take(i as int),
            ).push((0i64, audit_line(entries@[i as int]))));
        }
        i = i + 1;
    }
    assert(entries@.take(entries@.len() as int) =~= entries@);
    out
}

fn passes(content: &str, key: &[char]) -> (r: bool)
    ensures
        r == passes_search(content@, key@),
{
    if key.len() == 0 {
        return true;
    }
    let low = to_lowercase(content);
    let v = chars_of(low.as_str());
    crate::text::find_chars(v.as_slice(), key).is_some()
}

/// Which memories pass the search (compared lower-cased).
pub fn memory_hits(ms: &[Memory], search: &str) -> (r: Vec<bool>)
    ensures
        r@ == spec_memory_hits(ms@, search_key(search@)),
{
    let key = chars_of(to_lowercase(search).as_str());
    let mut out: Vec<bool> = Vec::new();
    let mut i: usize = 0;
    while i < ms.len()
        invariant
            i <= ms@.len(),
            key@ == search_key(search@),
            out@ == spec_memory_hits(ms@, key@).take(i as int),
        decreases ms@.len() - i,
    {
        out.push(passes(ms[i].content.as_str(), key.as_slice()));
        assert(out@ =~= spec_memory_hits(ms@, key@).take(i + 1));
        i = i + 1;
    }
    assert(out@ =~= spec_memory_hits(ms@, key@));
    out
}

/// Which pending changes pass the search (compared lower-cased).
pub fn pending_hits(ps: &[PendingChange], search: &str) -> (r: Vec<bool>)
    ensures
        r@ == spec_pending_hits(ps@, search_key(search@)),
{
    let key = chars_of(to_lowercase(search).as_str());
    let mut out: Vec<bool> = Vec::new();
    let mut i: usize = 0;
    while i < ps.len()
        invariant
            i <= ps@.len(),
            key@ == search_key(search@),
            out@ == spec_pending_hits(ps@, key@).take(i as int),
        decreases ps@.len() - i,
    {
        out.push(passes(ps[i].content.as_str(), key.as_slice()));
        assert(out@ =~= spec_pending_hits(ps@, key@).take(i + 1));
        i = i + 1;
    }
    assert(out@ =~= spec_pending_hits(ps@, key@));
    out
}

/// Rows of the saved-memories view, given which memories pass the search.
pub fn active_rows_with(ms: &[Memory], hits: &[bool], kind: &str) -> (r: Vec<(i64, String)>)
    requires
        hits@.len() == ms@.len(),
    ensures
        rows_view(r@) == spec_active_rows(ms@, hits@, kind@),
{
    let all = str_eq(kind, "all");
    let mut out: Vec<(i64, String)> = Vec::new();
    let mut i: usize = 0;
    while i < ms.len()
        invariant
            i <= ms@.len(),
            hits@.len() == ms@.len(),
            all == (kind@ == "all"@),
            rows_view(out@) == spec_active_rows(ms@.take(i as int), hits@.take(i as int), kind@),
        decreases ms@.len() - i,
    {
        let m = &ms[i];
        assert(ms@.take(i + 1).drop_last() =~= ms@.take(i as int));
        assert(hits@.take(i + 1).drop_last() =~= hits@.take(i as int));
        if (all || str_eq(m.kind.as_str(), kind)) && hits[i] {
            let mut line = String::from_str("#");
            push_signed(&mut line, m.id);
            push_str(&mut line, " [");
            push_str(&mut line, m.kind.as_str());
            push_str(&mut line, "]");
            if m.pinned {
                push_str(&mut line, " [pin]");
            }
            push_str(&mut line, " ");
            push_str(&mut line, m.content.as_str());
            assert(line@ =~= active_line(*m));
            let ghost out0 = out@;
            out.push((m.id, line));
            proof {
                lemma_rows_push(out0, (m.id, line));
            }
        }
        i = i + 1;
    }
    assert(ms@.take(ms@.len() as int) =~= ms@);
    assert(hits@.take(hits@.len() as int) =~= hits@);
    out
}

/// Rows of the deleted-memories view, given which memories pass the search.
pub fn deleted_rows_with(ms: &[Memory], hits: &[bool]) -> (r: Vec<(i64, String)>)
    requires
        hits@.len() == ms@.len(),
    ensures
        rows_view(r@) == spec_deleted_rows(ms@, hits@),
{
    let mut out: Vec<(i64, String)> = Vec::new();
    let mut i: usize = 0;
    while i < ms.len()
        invariant
            i <= ms@.len(),
            hits@.len() == ms@.len(),
            rows_view(out@) == spec_deleted_rows(ms@.take(i as int), hits@.take(i as int)),
        decreases ms@.len() - i,
    {
        let m = &ms[i];
        assert(ms@.take(i + 1).drop_last() =~= ms@.take(i as int));
        assert(hits@.take(i + 1).drop_last() =~= hits@.take(i as int));
        if hits[i] {
            let mut line = String::from_str("#");
            push_signed(&mut line, m.id);
            push_str(&mut line, " [");
            push_str(&mut line, m.kind.as_str());
            push_str(&mut line, "] ");
            push_str(&mut line, m.content.as_str());
            assert(line@ =~= deleted_line(*m));
            let ghost out0 = out@;
            out.push((m.id, line));
            proof {
                lemma_rows_push(out0, (m.id, line));
            }
        }
        i = i + 1;
    }
    assert(ms@.take(ms@.len() as int) =~= ms@);
    assert(hits@.take(hits@.len() as int) =~= hits@);
    out
}

/// Rows of the pending-changes view, given which changes pass the search.
pub fn pending_rows_with(ps: &[PendingChange], hits: &[bool]) -> (r: Vec<(i64, String)>)
    requires
        hits@.len() == ps@.len(),
    ensures
        rows_view(r@) == spec_pending_rows(ps@, hits@),
{
    let mut out: Vec<(i64, String)> = Vec::new();
    let mut i: usize = 0;
    while i < ps.len()
        invariant
            i <= ps@.len(),
            hits@.len() == ps@.len(),
            rows_view(out@) == spec_pending_rows(ps@.take(i as int), hits@.take(i as int)),
        decreases ps@.len() - i,
    {
        let p = &ps[i];
        assert(ps@.take(i + 1).drop_last() =~= ps@.take(i as int));
        assert(hits@.take(i + 1).drop_last() =~= hits@.take(i as int));
        if hits[i] {
            let mut line = String::from_str("p#");
            push_signed(&mut line, p.id);
            push_str(&mut line, " [");
            push_str(&mut line, p.action.as_str());
            push_str(&mut line, "]");
            if let Some(t) = p.target_id {
                push_str(&mut line, " ->#");
                push_signed(&mut line, t);
            }
            push_str(&mut line, " ");
            push_str(&mut line, p.content.as_str());
            assert(line@ =~= pending_line(*p));
            let ghost out0 = out@;
            out.push((p.id, line));
            proof {
                lemma_rows_push(out0, (p.id, line));
            }
        }
        i = i + 1;
    }
    assert(ps@.take(ps@.len() as int) =~= ps@);
    assert(hits@.take(hits@.len() as int) =~= hits@);
    out
}

/// Rows of the saved-memories view for the kind filter and the search text.
pub fn active_rows(ms: &[Memory], kind: &str, search: &str) -> (r: Vec<(i64, String)>)
    ensures
        rows_view(r@) == spec_active_rows(ms@, spec_memory_hits(ms@, search_key(search@)), kind@),
{
    let hits = memory_hits(ms, search);
    active_rows_with(ms, hits.as_slice(), kind)
}

/// Rows of the deleted-memories view for the search text.
pub fn deleted_rows(ms: &[Memory], search: &str) -> (r: Vec<(i64, String)>)
    ensures
        rows_view(r@) == spec_deleted_rows(ms@, spec_memory_hits(ms@, search_key(search@))),
{
    let hits = memory_hits(ms, search);
    deleted_rows_with(ms, hits.as_slice())
}

/// Rows of the pending-changes view for the search text.
pub fn pending_rows(ps: &[PendingChange], search: &str) -> (r: Vec<(i64, String)>)
    ensures
        rows_view(r@) == spec_pending_rows(ps@, spec_pending_hits(ps@, search_key(search@))),
{
    let hits = pending_hits(ps, search);
    pending_rows_with(ps, hits.as_slice())
}

/// Every listed row passes the filters: a row of the saved view is a memory
/// of the chosen kind that passes the search.
pub proof fn lemma_rows_filtered(ms: Seq<Memory>, hits: Seq<bool>, kind: Seq<char>, k: int)
    requires
        hits.len() == ms.len(),
        0 <= k < spec_active_rows(ms, hits, kind).len(),
    ensures
        exists|j: int|
            0 <= j < ms.len() && (kind == "all"@ || (#[trigger] ms[j]).kind@ == kind) && hits[j]
                && spec_active_rows(ms, hits, kind)[k] == (ms[j].id, active_line(ms[j])),
    decreases ms.len(),
{
    let rest = spec_active_rows(ms.drop_last(), hits.drop_last(), kind);
    if k < rest.len() {
        lemma_rows_filtered(ms.drop_last(), hits.drop_last(), kind, k);
        let j = choose|j: int|
            0 <= j < ms.drop_last().len() && (kind == "all"@ || (#[trigger] ms.drop_last()[j]).kind@
                == kind) && hits.drop_last()[j] && rest[k] == (
                ms.drop_last()[j].id,
                active_line(ms.drop_last()[j]),
            );
        assert(ms[j] == ms.drop_last()[j]);
        assert(hits[j] == hits.drop_last()[j]);
    } else {
        assert(ms[ms.len() - 1] == ms.last());
        assert(hits[hits.len() - 1] == hits.last());
    }
}

} // verus!
