//! What is shown to the user: the plan before the question, the answer that
//! counts as a yes, and the results after the batch.

use crate::item::{FsItem, FsItemRenameError, ItemView};
use crate::order::views;
use vstd::prelude::*;
use vstd::string::to_string_from_display_ensures;

verus! {

/// The texts of `lines`.
pub open spec fn texts(lines: Seq<String>) -> Seq<Seq<char>> {
    lines.map_values(|line: String| line@)
}

/// The line that names the directory at the start.
pub open spec fn directory_text(dir: Seq<char>) -> Seq<char> {
    "Directory: "@ + dir
}

/// An item's old and new name with an arrow between them.
pub open spec fn arrow_text(item: ItemView) -> Seq<char> {
    item.name + " -> "@ + item.new_name
}

/// The line that announces one rename.
pub open spec fn preview_text(item: ItemView) -> Seq<char> {
    "Rename: "@ + arrow_text(item)
}

/// The line that reports one rename as done.
pub open spec fn success_text(item: ItemView) -> Seq<char> {
    "- "@ + arrow_text(item)
}

/// The line that reports one rename as failed, with the reason given.
pub open spec fn failure_text(item: ItemView, reason: Seq<char>) -> Seq<char> {
    "- "@ + arrow_text(item) + ": "@ + reason
}

/// The lines that announce the renames of `items`, one each, in order.
pub open spec fn preview_texts(items: Seq<ItemView>) -> Seq<Seq<char>> {
    items.map_values(|item: ItemView| preview_text(item))
}

/// The lines that report `items` as renamed, one each, in order.
pub open spec fn success_texts(items: Seq<ItemView>) -> Seq<Seq<char>> {
    items.map_values(|item: ItemView| success_text(item))
}

/// The lines that report `items` as failed, one each, in order, the i-th
/// with the i-th of `reasons`.
pub open spec fn failure_texts(items: Seq<ItemView>, reasons: Seq<Seq<char>>) -> Seq<Seq<char>> {
    Seq::new(items.len(), |i: int| failure_text(items[i], reasons[i]))
}

/// The report of a batch: a heading and the renamed items, a heading and
/// the failed items with the reasons, and a closing line.
pub open spec fn report_texts(
    renamed: Seq<ItemView>,
    failed: Seq<ItemView>,
    reasons: Seq<Seq<char>>,
) -> Seq<Seq<char>> {
    seq!["\nRenamed items:"@] + success_texts(renamed) + seq!["\nFailed:"@] + failure_texts(
        failed,
        reasons,
    ) + seq!["Ok"@]
}

/// The items that `refs` point to, as the contracts see them.
pub open spec fn ref_views(refs: Seq<&FsItem>) -> Seq<ItemView> {
    refs.map_values(|item: &FsItem| item@)
}

/// The items of the failed attempts `errors`, as the contracts see them.
pub open spec fn failed_views(errors: Seq<FsItemRenameError<'_>>) -> Seq<ItemView> {
    errors.map_values(|error: FsItemRenameError<'_>| error.item@)
}

/// Whether `text` is the wording of `error`: what the error says of itself
/// when it is displayed.
pub open spec fn is_wording(error: std::io::Error, text: String) -> bool {
    to_string_from_display_ensures::<std::io::Error>(&error, text)
}

/// Whether `reasons` are the wordings of the reasons of `errors`, one
/// each, in order.
pub open spec fn are_wordings(errors: Seq<FsItemRenameError<'_>>, reasons: Seq<String>) -> bool {
    &&& reasons.len() == errors.len()
    &&& forall|i: int| 0 <= i < errors.len() ==> is_wording(errors[i].reason, #[trigger] reasons[i])
}

/// `item.name -> item.new_name`, appended to `line`.
fn push_arrow(line: &mut String, item: &FsItem)
    ensures
        final(line)@ == old(line)@ + arrow_text(item@),
{
    line.append(item.name.as_str());
    line.append(" -> ");
    line.append(item.new_name.as_str());
    assert(line@ =~= old(line)@ + arrow_text(item@));
}

/// The line that names the directory at the start.
pub fn directory_line(dir: &str) -> (line: String)
    ensures
        line@ == directory_text(dir@),
{
    let mut line = String::from_str("Directory: ");
    line.append(dir);
    line
}

/// The line that announces the rename of `item`.
pub fn preview_line(item: &FsItem) -> (line: String)
    ensures
        line@ == preview_text(item@),
{
    let mut line = String::from_str("Rename: ");
    push_arrow(&mut line, item);
    line
}

/// The line that reports `item` as renamed.
pub fn success_line(item: &FsItem) -> (line: String)
    ensures
        line@ == success_text(item@),
{
    let mut line = String::from_str("- ");
    push_arrow(&mut line, item);
    line
}

/// The line that reports the rename of `item` as failed for `reason`.
pub fn failure_line(item: &FsItem, reason: &str) -> (line: String)
    ensures
        line@ == failure_text(item@, reason@),
{
    let mut line = String::from_str("- ");
    push_arrow(&mut line, item);
    line.append(": ");
    line.append(reason);
    line
}

/// The plan: one line for each item, in order.
pub fn preview(items: &Vec<FsItem>) -> (lines: Vec<String>)
    ensures
        texts(lines@) == preview_texts(views(items@)),
{
    let mut lines: Vec<String> = Vec::new();
    let mut i: usize = 0;
    while i < items.len()
        invariant
            i <= items.len(),
            texts(lines@) == preview_texts(views(items@.take(i as int))),
        decreases items.len() - i,
    {
        let ghost before = lines@;
        let line = preview_line(&items[i]);
        lines.push(line);
        i += 1;
        assert(texts(lines@) =~= texts(before).push(line@));
        assert(preview_texts(views(items@.take(i as int))) =~= preview_texts(
            views(items@.take(i - 1)),
        ).push(preview_text(items@[i - 1]@)));
    }
    assert(items@.take(items@.len() as int) =~= items@);
    lines
}

/// Whether the user's answer lets the batch go ahead: only a line that
/// reads exactly `Y` does. Any other line, the end of the input or a failed
/// read does not.
pub open spec fn is_yes(answer: Option<Result<String, std::io::Error>>) -> bool {
    answer matches Some(Ok(line)) && line@ == seq!['Y']
}

/// Whether the user's answer lets the batch go ahead.
pub fn confirmed(answer: &Option<Result<String, std::io::Error>>) -> (yes: bool)
    ensures
        yes == is_yes(*answer),
{
    match answer {
        Some(Ok(line)) => {
            let text = line.as_str();
            let yes = text.unicode_len() == 1 && text.get_char(0) == 'Y';
            assert(yes ==> line@ =~= seq!['Y']);
            yes
        },
        _ => false,
    }
}

/// The report of a batch: the items that were renamed, then the items that
/// were not, each with the wording of its own reason.
pub fn report(renamed: &Vec<&FsItem>, failed: &Vec<FsItemRenameError<'_>>) -> (lines: Vec<String>)
    ensures
        exists|reasons: Seq<String>| #[trigger]
            are_wordings(failed@, reasons) && texts(lines@) == report_texts(
                ref_views(renamed@),
                failed_views(failed@),
                texts(reasons),
            ),
{
    let mut lines: Vec<String> = Vec::new();
    lines.push(String::from_str("\nRenamed items:"));
    let mut i: usize = 0;
    while i < renamed.len()
        invariant
            i <= renamed.len(),
            texts(lines@) == seq!["\nRenamed items:"@] + success_texts(
                ref_views(renamed@.take(i as int)),
            ),
        decreases renamed.len() - i,
    {
        let ghost before = lines@;
        let line = success_line(renamed[i]);
        lines.push(line);
        i += 1;
        assert(texts(lines@) =~= texts(before).push(line@));
        assert(success_texts(ref_views(renamed@.take(i as int))) =~= success_texts(
            ref_views(renamed@.take(i - 1)),
        ).push(success_text(renamed@[i - 1]@)));
    }
    assert(renamed@.take(renamed@.len() as int) =~= renamed@);
    let ghost head = texts(lines@);
    lines.push(String::from_str("\nFailed:"));
    let ghost mut reasons: Seq<String> = Seq::empty();
    let mut j: usize = 0;
    while j < failed.len()
        invariant
            j <= failed.len(),
            are_wordings(failed@.take(j as int), reasons),
            texts(lines@) == head + seq!["\nFailed:"@] + failure_texts(
                failed_views(failed@.take(j as int)),
                texts(reasons),
            ),
        decreases failed.len() - j,
    {
        let ghost before = lines@;
        let ghost known = reasons;
        let reason = failed[j].reason.to_string();
        let line = failure_line(failed[j].item, reason.as_str());
        lines.push(line);
        proof {
            reasons = reasons.push(reason);
        }
        j += 1;
        assert(texts(lines@) =~= texts(before).push(line@));
        assert(failure_texts(failed_views(failed@.take(j as int)), texts(reasons))
            =~= failure_texts(failed_views(failed@.take(j - 1)), texts(known)).push(
            failure_text(failed@[j - 1].item@, reason@),
        ));
    }
    assert(failed@.take(failed@.len() as int) =~= failed@);
    let ghost body = texts(lines@);
    lines.push(String::from_str("Ok"));
    assert(texts(lines@) =~= body.push("Ok"@));
    assert(texts(lines@) =~= report_texts(
        ref_views(renamed@),
        failed_views(failed@),
        texts(reasons),
    ));
    lines
}

} // verus!
