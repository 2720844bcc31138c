//! The batch: which groups and items of the input are worked on, and where.

use crate::mkv::{Stream, Track};
use crate::select::{find, picks_view, selection, tracks_view, Pick};
use crate::value::{Doc, Value};
use crate::paths::{
    ext_of, extension, file_in, file_stem, join, joined, output_file, parent, parent_of, stem_of,
};
use crate::text::{
    before, or_empty, order_is_strict, order_is_total, order_is_transitive, same, text_before,
    text_or_empty,
};
use crate::utils::{texts, StrVec};
use vstd::prelude::*;

verus! {

/// The model of a directory entry.
pub struct EntryView {
    pub path: Seq<char>,
    pub is_dir: bool,
    pub is_file: bool,
}

/// An entry of a directory: its path, and whether it is a directory or a
/// regular file.
#[derive(Debug, PartialEq, Eq)]
pub struct Entry {
    pub path: String,
    pub is_dir: bool,
    pub is_file: bool,
}

impl View for Entry {
    type V = EntryView;

    open spec fn view(&self) -> EntryView {
        EntryView { path: self.path@, is_dir: self.is_dir, is_file: self.is_file }
    }
}

/// The model of a list of entries.
pub open spec fn entries_view(list: Seq<Entry>) -> Seq<EntryView> {
    Seq::new(list.len(), |i: int| list[i]@)
}

/// The model of a group.
pub struct GroupView {
    pub input: Seq<char>,
    pub working: Seq<char>,
    pub output: Seq<char>,
}

/// The directories of a configuration group: where its items are, where
/// they are worked on, and where their outputs go.
#[derive(Debug, PartialEq, Eq)]
pub struct Group {
    pub input: String,
    pub working: String,
    pub output: String,
}

impl View for Group {
    type V = GroupView;

    open spec fn view(&self) -> GroupView {
        GroupView { input: self.input@, working: self.working@, output: self.output@ }
    }
}

/// The directories of the group `name` under the three roots.
pub open spec fn group_of(
    name: Seq<char>,
    input: Seq<char>,
    working: Seq<char>,
    output: Seq<char>,
) -> GroupView {
    GroupView {
        input: joined(input, name),
        working: joined(working, name),
        output: joined(output, name),
    }
}

/// The directories of the configuration group `name`: under each of the
/// three roots the directory of that name.
///
/// The group is worked on only if its input directory exists; the caller
/// looks, and makes the other two.
pub fn group(name: &str, input: &str, working: &str, output: &str) -> (r: Group)
    ensures
        r@ == group_of(name@, input@, working@, output@),
{
    Group { input: join(input, name), working: join(working, name), output: join(output, name) }
}

/// The model of an item.
pub struct ItemView {
    pub name: Seq<char>,
    pub path: Seq<char>,
    pub working: Seq<char>,
    pub output: Seq<char>,
}

/// One item of a group: a container file, or a directory of them, with its
/// working directory and its output file.
#[derive(Debug, PartialEq, Eq)]
pub struct Item {
    pub name: String,
    pub path: String,
    pub working: String,
    pub output: String,
}

impl View for Item {
    type V = ItemView;

    open spec fn view(&self) -> ItemView {
        ItemView {
            name: self.name@,
            path: self.path@,
            working: self.working@,
            output: self.output@,
        }
    }
}

/// The model of a list of items.
pub open spec fn items_view(list: Seq<Item>) -> Seq<ItemView> {
    Seq::new(list.len(), |i: int| list[i]@)
}

/// Whether an entry is a container file: a regular file with the extension
/// `mkv`.
pub open spec fn is_container(entry: EntryView) -> bool {
    entry.is_file && ext_of(entry.path) == Some("mkv"@)
}

/// The item that an entry of a group's input directory is, if it is one: a
/// directory or a container file, named by the stem of its path, or by the
/// empty name if the path has none.
pub open spec fn item_of(entry: EntryView, working: Seq<char>, output: Seq<char>) -> Option<
    ItemView,
> {
    if !(entry.is_dir || is_container(entry)) {
        None
    } else {
        let name = or_empty(stem_of(entry.path));
        Some(
            ItemView {
                name,
                path: entry.path,
                working: joined(working, name),
                output: file_in(output, name, "mkv"@),
            },
        )
    }
}

/// The first place at or after `from` in a list of entries whose path does
/// not come before `path`.
pub open spec fn slot_of(list: Seq<EntryView>, path: Seq<char>, from: int) -> int
    decreases list.len() - from,
{
    if from < 0 || from >= list.len() {
        list.len() as int
    } else if text_before(list[from].path, path) {
        slot_of(list, path, from + 1)
    } else {
        from
    }
}

/// The first `n` entries of a list, arranged by path: each is put before the
/// first of those already arranged that does not come before it.
pub open spec fn arranged(entries: Seq<EntryView>, n: nat) -> Seq<EntryView>
    decreases n,
{
    if n == 0 || n > entries.len() {
        Seq::empty()
    } else {
        let sorted = arranged(entries, (n - 1) as nat);
        sorted.insert(slot_of(sorted, entries[n - 1].path, 0), entries[n - 1])
    }
}

/// Whether a list of entries is in the order of its paths: no entry comes
/// after one whose path comes after its own.
pub open spec fn in_order(list: Seq<EntryView>) -> bool {
    forall|i: int, j: int| 0 <= i < j < list.len() ==> !text_before(list[j].path, list[i].path)
}

proof fn slot_splits(list: Seq<EntryView>, path: Seq<char>, from: int)
    requires
        0 <= from <= list.len(),
    ensures
        from <= slot_of(list, path, from) <= list.len(),
        forall|k: int| from <= k < slot_of(list, path, from) ==> text_before(list[k].path, path),
        slot_of(list, path, from) < list.len() ==> !text_before(
            list[slot_of(list, path, from)].path,
            path,
        ),
    decreases list.len() - from,
{
    if from < list.len() && text_before(list[from].path, path) {
        slot_splits(list, path, from + 1);
    }
}

/// Entries that are arranged are in the order of their paths, and as many
/// as there were.
pub proof fn arranged_in_order(entries: Seq<EntryView>, n: nat)
    requires
        n <= entries.len(),
    ensures
        in_order(arranged(entries, n)),
        arranged(entries, n).len() == n,
    decreases n,
{
    if n > 0 {
        arranged_in_order(entries, (n - 1) as nat);
        let sorted = arranged(entries, (n - 1) as nat);
        let path = entries[n - 1].path;
        slot_splits(sorted, path, 0);
        let at = slot_of(sorted, path, 0);
        let new = arranged(entries, n);
        assert forall|i: int, j: int| 0 <= i < j < new.len() implies !text_before(
            new[j].path,
            new[i].path,
        ) by {
            if j < at {
            } else if j == at {
                if text_before(path, sorted[i].path) {
                    order_is_transitive(path, sorted[i].path, path);
                    order_is_strict(path);
                }
            } else if i == at {
                if text_before(sorted[j - 1].path, path) {
                    if sorted[at].path != path {
                        order_is_total(sorted[at].path, path);
                        order_is_transitive(sorted[j - 1].path, path, sorted[at].path);
                    }
                }
            } else if i < at {
                assert(!text_before(sorted[j - 1].path, sorted[i].path));
            } else {
                assert(!text_before(sorted[j - 1].path, sorted[i - 1].path));
            }
        }
    }
}

/// The items among the first `n` entries of a list, in order.
pub open spec fn items_upto(
    entries: Seq<EntryView>,
    n: nat,
    working: Seq<char>,
    output: Seq<char>,
) -> Seq<ItemView>
    decreases n,
{
    if n == 0 || n > entries.len() {
        Seq::empty()
    } else {
        match item_of(entries[n - 1], working, output) {
            Some(item) => items_upto(entries, (n - 1) as nat, working, output).push(item),
            None => items_upto(entries, (n - 1) as nat, working, output),
        }
    }
}

/// The items of a group: the entries of its input directory that are items,
/// in the order of their paths.
pub open spec fn group_items(entries: Seq<EntryView>, working: Seq<char>, output: Seq<char>) -> Seq<
    ItemView,
> {
    let sorted = arranged(entries, entries.len());
    items_upto(sorted, sorted.len(), working, output)
}

/// Whether an entry is a container file.
pub fn container(entry: &Entry) -> (r: bool)
    ensures
        r == is_container(entry@),
{
    entry.is_file && match extension(entry.path.as_str()) {
        Some(ext) => same(ext.as_str(), "mkv"),
        None => false,
    }
}

/// A copy of a list of entries, arranged by path.
pub fn arrange(entries: &Vec<Entry>) -> (r: Vec<Entry>)
    ensures
        entries_view(r@) == arranged(entries_view(entries@), entries@.len()),
{
    let ghost all = entries_view(entries@);
    let mut sorted: Vec<Entry> = Vec::new();
    assert(entries_view(sorted@) =~= Seq::empty());
    let mut i: usize = 0;
    while i < entries.len()
        invariant
            i <= entries.len(),
            all == entries_view(entries@),
            entries_view(sorted@) == arranged(all, i as nat),
        decreases entries.len() - i,
    {
        assert(all[i as int] == entries@[i as int]@);
        let ghost before_view = entries_view(sorted@);
        let mut at: usize = 0;
        while at < sorted.len() && before(sorted[at].path.as_str(), entries[i].path.as_str())
            invariant
                at <= sorted.len(),
                i < entries.len(),
                before_view == entries_view(sorted@),
                slot_of(before_view, entries@[i as int].path@, 0) == slot_of(
                    before_view,
                    entries@[i as int].path@,
                    at as int,
                ),
            decreases sorted.len() - at,
        {
            at += 1;
        }
        let copy = Entry {
            path: entries[i].path.clone(),
            is_dir: entries[i].is_dir,
            is_file: entries[i].is_file,
        };
        sorted.insert(at, copy);
        assert(entries_view(sorted@) =~= before_view.insert(at as int, all[i as int]));
        i += 1;
    }
    sorted
}

/// The items of a group, in the order in which they are worked on.
///
/// `entries` are the entries of the group's input directory, `working` and
/// `output` the group's other two directories.
pub fn list_items(entries: &Vec<Entry>, working: &str, output: &str) -> (r: Vec<Item>)
    ensures
        items_view(r@) == group_items(entries_view(entries@), working@, output@),
{
    let sorted = arrange(entries);
    let ghost all = entries_view(sorted@);
    let mut items: Vec<Item> = Vec::new();
    assert(items_view(items@) =~= Seq::empty());
    let mut i: usize = 0;
    while i < sorted.len()
        invariant
            i <= sorted.len(),
            all == entries_view(sorted@),
            items_view(items@) == items_upto(all, i as nat, working@, output@),
        decreases sorted.len() - i,
    {
        assert(all[i as int] == sorted@[i as int]@);
        let entry = &sorted[i];
        if entry.is_dir || container(entry) {
            let name = text_or_empty(file_stem(entry.path.as_str()));
            let ghost before_view = items_view(items@);
            proof {
                reveal_strlit("mkv");
                reveal_with_fuel(crate::paths::plain_from, 12);
            }
            let item = Item {
                path: entry.path.clone(),
                working: join(working, name.as_str()),
                output: output_file(output, name.as_str(), "mkv"),
                name,
            };
            items.push(item);
            assert(items_view(items@) =~= before_view.push(item@));
        }
        i += 1;
    }
    items
}

/// The model of what to do with an item.
pub enum ItemPlanView {
    Skip,
    Work { files: Seq<Seq<char>> },
}

/// What to do with an item.
#[derive(Debug, PartialEq, Eq)]
pub enum ItemPlan {
    /// Nothing: the item is complete, and nothing of it is touched, not even
    /// its working directory.
    Skip,
    /// Make the item's working directory and process these container files
    /// into the item's output.
    Work { files: Vec<String> },
}

impl View for ItemPlan {
    type V = ItemPlanView;

    open spec fn view(&self) -> ItemPlanView {
        match self {
            ItemPlan::Skip => ItemPlanView::Skip,
            ItemPlan::Work { files } => ItemPlanView::Work { files: texts(files@) },
        }
    }
}

/// The container files among the first `n` entries of a directory, in order.
pub open spec fn containers_upto(children: Seq<EntryView>, n: nat) -> Seq<Seq<char>>
    decreases n,
{
    if n == 0 || n > children.len() {
        Seq::empty()
    } else if is_container(children[n - 1]) {
        containers_upto(children, (n - 1) as nat).push(children[n - 1].path)
    } else {
        containers_upto(children, (n - 1) as nat)
    }
}

/// What to do with an item: nothing if its output exists; else its
/// container files are processed, which are the item itself if it is a file,
/// and the container files directly in it if it is a directory.
pub open spec fn item_plan(
    path: Seq<char>,
    is_file: bool,
    children: Seq<EntryView>,
    output_exists: bool,
) -> ItemPlanView {
    if output_exists {
        ItemPlanView::Skip
    } else if is_file {
        ItemPlanView::Work { files: seq![path] }
    } else {
        ItemPlanView::Work { files: containers_upto(children, children.len()) }
    }
}

/// Decides what to do with an item.
///
/// `path` is the item, `is_file` whether it is a regular file, `children`
/// the entries of the item if it is a directory, and `output_exists` whether
/// the item's output file is there.
pub fn enter_item(path: &str, is_file: bool, children: &Vec<Entry>, output_exists: bool) -> (r:
    ItemPlan)
    ensures
        r@ == item_plan(path@, is_file, entries_view(children@), output_exists),
{
    if output_exists {
        return ItemPlan::Skip;
    }
    let mut files: Vec<String> = Vec::new();
    assert(texts(files@) =~= Seq::empty());
    if is_file {
        files.push_str(path);
        assert(texts(files@) =~= seq![path@]);
        return ItemPlan::Work { files };
    }
    let ghost all = entries_view(children@);
    let mut i: usize = 0;
    while i < children.len()
        invariant
            i <= children.len(),
            all == entries_view(children@),
            texts(files@) == containers_upto(all, i as nat),
        decreases children.len() - i,
    {
        assert(all[i as int] == children@[i as int]@);
        if container(&children[i]) {
            files.push_str(children[i].path.as_str());
        }
        i += 1;
    }
    ItemPlan::Work { files }
}

/// The directory in which a selected track is worked on: the directory of
/// its container, if the path of the container names one.
pub fn working_dir(stream: &Stream) -> (r: Option<String>)
    ensures
        r is Some == parent_of(stream@.path) is Some,
        r matches Some(dir) ==> parent_of(stream@.path) == Some(dir@),
{
    parent(stream.path.as_str())
}

/// An item whose output exists is skipped, whatever the item is and whatever
/// it holds: the one order for it is `Skip`, under which nothing is made.
pub proof fn finished_item_is_skipped(path: Seq<char>, is_file: bool, children: Seq<EntryView>)
    ensures
        item_plan(path, is_file, children, true) == ItemPlanView::Skip,
        forall|cfg: Doc|
            #[trigger] item_order(
                cfg,
                path,
                ItemProgressView::Entered { is_file, children, output_exists: true },
            ) == ItemOrderView::Skip,
{
}

/// How the item before a turn went.
#[derive(Clone, Copy, Debug, PartialEq, Eq, Structural)]
pub enum Report {
    /// There was no item before.
    Begun,
    /// It went well, or it was skipped.
    Passed,
    /// It failed.
    Failed,
}

/// What a group does next among `count` items of which `done` are behind
/// it: after a failure nothing more (none); otherwise the next item, if one
/// is left.
pub open spec fn next_of(count: int, done: int, last: Report) -> Option<Option<int>> {
    if last == Report::Failed {
        None
    } else if 0 <= done < count {
        Some(Some(done))
    } else {
        Some(None)
    }
}

/// The model of the turn of a group.
pub enum ItemTurnView {
    Work(ItemView),
    Finished,
    Aborted,
}

/// What a group does next.
#[derive(Debug, PartialEq, Eq)]
pub enum ItemTurn {
    /// Work on this item, then come back with how it went.
    Work(Item),
    /// Every item is behind the group: it went well.
    Finished,
    /// An item failed: the group has failed, and no further item is touched.
    Aborted,
}

impl View for ItemTurn {
    type V = ItemTurnView;

    open spec fn view(&self) -> ItemTurnView {
        match self {
            ItemTurn::Work(item) => ItemTurnView::Work(item@),
            ItemTurn::Finished => ItemTurnView::Finished,
            ItemTurn::Aborted => ItemTurnView::Aborted,
        }
    }
}

/// What a group does next, where `done` of its items are behind it and
/// `last` is how the last of them went: its items are worked on in the order
/// of their paths, and the first that fails ends the group.
pub open spec fn item_turn(
    entries: Seq<EntryView>,
    working: Seq<char>,
    output: Seq<char>,
    done: int,
    last: Report,
) -> ItemTurnView {
    let items = group_items(entries, working, output);
    match next_of(items.len() as int, done, last) {
        None => ItemTurnView::Aborted,
        Some(None) => ItemTurnView::Finished,
        Some(Some(at)) => ItemTurnView::Work(items[at]),
    }
}

/// Decides what a group does next.
///
/// `entries` are the entries of the group's input directory, `working` and
/// `output` the group's other two directories, `done` the number of items
/// that are behind the group and `last` how the last of them went.
pub fn process_dir(entries: &Vec<Entry>, working: &str, output: &str, done: usize, last: Report) -> (r:
    ItemTurn)
    ensures
        r@ == item_turn(entries_view(entries@), working@, output@, done as int, last),
{
    if last == Report::Failed {
        return ItemTurn::Aborted;
    }
    let mut items = list_items(entries, working, output);
    assert(items_view(items@).len() == items@.len());
    if done < items.len() {
        let ghost all = items_view(items@);
        assert(all[done as int] == items@[done as int]@);
        ItemTurn::Work(items.swap_remove(done))
    } else {
        ItemTurn::Finished
    }
}

/// How the batch stands with the group it was last told of.
#[derive(Clone, Copy, Debug, PartialEq, Eq, Structural)]
pub enum GroupEvent {
    /// Nothing has been done.
    Begun,
    /// The group's input was looked for: whether it is there, and whether
    /// it is a directory.
    Seen { exists: bool, is_dir: bool },
    /// The group was worked on, and that went well.
    Passed,
    /// The group was worked on, and that failed.
    Failed,
}

/// The model of the turn of a batch.
pub enum GroupTurnView {
    Look { at: nat, group: GroupView },
    Work { at: nat, group: GroupView },
    Finished,
    Aborted,
}

/// What a batch does next.
#[derive(Debug, PartialEq, Eq)]
pub enum GroupTurn {
    /// Look for the input directory of group `at`, then come back with what
    /// was seen.
    Look { at: usize, group: Group },
    /// Make the working and the output directory of group `at` and work on
    /// its items, then come back with how that went.
    Work { at: usize, group: Group },
    /// Every group is behind the batch: it went well.
    Finished,
    /// A group failed: the batch has failed, and no further group is touched.
    Aborted,
}

impl View for GroupTurn {
    type V = GroupTurnView;

    open spec fn view(&self) -> GroupTurnView {
        match self {
            GroupTurn::Look { at, group } => GroupTurnView::Look { at: *at as nat, group: group@ },
            GroupTurn::Work { at, group } => GroupTurnView::Work { at: *at as nat, group: group@ },
            GroupTurn::Finished => GroupTurnView::Finished,
            GroupTurn::Aborted => GroupTurnView::Aborted,
        }
    }
}

/// The turn that looks at group `at`, or ends the batch if there is none.
pub open spec fn look_at(
    names: Seq<Seq<char>>,
    input: Seq<char>,
    working: Seq<char>,
    output: Seq<char>,
    at: int,
) -> GroupTurnView {
    if 0 <= at < names.len() {
        GroupTurnView::Look { at: at as nat, group: group_of(names[at], input, working, output) }
    } else {
        GroupTurnView::Finished
    }
}

/// What a batch does next, where `last` is how it stands with group `at`.
///
/// The groups are taken in the order of their names as listed. Each is looked
/// for first: it is worked on exactly if its input is there and is a
/// directory, and passed over otherwise, which is no failure. The first group
/// that fails ends the batch.
pub open spec fn group_turn(
    names: Seq<Seq<char>>,
    input: Seq<char>,
    working: Seq<char>,
    output: Seq<char>,
    at: int,
    last: GroupEvent,
) -> GroupTurnView {
    match last {
        GroupEvent::Failed => GroupTurnView::Aborted,
        GroupEvent::Begun => look_at(names, input, working, output, at),
        GroupEvent::Passed => look_at(names, input, working, output, at + 1),
        GroupEvent::Seen { exists, is_dir } => if 0 <= at < names.len() && exists && is_dir {
            GroupTurnView::Work { at: at as nat, group: group_of(names[at], input, working, output) }
        } else {
            look_at(names, input, working, output, at + 1)
        },
    }
}

/// The turn that looks at group `at`, or ends the batch if there is none.
fn look(names: &Vec<String>, input: &str, working: &str, output: &str, at: usize) -> (r: GroupTurn)
    ensures
        r@ == look_at(texts(names@), input@, working@, output@, at as int),
{
    if at < names.len() {
        GroupTurn::Look { at, group: group(names[at].as_str(), input, working, output) }
    } else {
        GroupTurn::Finished
    }
}

/// Decides what a batch does next.
///
/// `names` are the names of the configuration documents in their order,
/// `input`, `working` and `output` the three roots, and `last` how the batch
/// stands with group `at`. The caller begins with group zero and `Begun`, and
/// comes back after each turn with the turn's `at` and what it saw or how the
/// work went.
pub fn process(
    names: &Vec<String>,
    input: &str,
    working: &str,
    output: &str,
    at: usize,
    last: GroupEvent,
) -> (r: GroupTurn)
    ensures
        r@ == group_turn(texts(names@), input@, working@, output@, at as int, last),
{
    match last {
        GroupEvent::Failed => GroupTurn::Aborted,
        GroupEvent::Begun => look(names, input, working, output, at),
        GroupEvent::Passed => {
            if at < names.len() {
                look(names, input, working, output, at + 1)
            } else {
                GroupTurn::Finished
            }
        },
        GroupEvent::Seen { exists, is_dir } => {
            if at < names.len() {
                if exists && is_dir {
                    GroupTurn::Work { at, group: group(names[at].as_str(), input, working, output) }
                } else {
                    look(names, input, working, output, at + 1)
                }
            } else {
                GroupTurn::Finished
            }
        },
    }
}

/// A group is worked on exactly if its input is there and is a directory.
pub proof fn group_is_worked_on_if_it_is_there(
    names: Seq<Seq<char>>,
    input: Seq<char>,
    working: Seq<char>,
    output: Seq<char>,
    at: int,
    exists: bool,
    is_dir: bool,
)
    requires
        0 <= at < names.len(),
    ensures
        group_turn(names, input, working, output, at, GroupEvent::Seen { exists, is_dir })
            is Work <==> exists && is_dir,
{
}

/// After a failed group a batch does nothing more.
pub proof fn failed_group_ends_the_batch(
    names: Seq<Seq<char>>,
    input: Seq<char>,
    working: Seq<char>,
    output: Seq<char>,
    at: int,
)
    ensures
        group_turn(names, input, working, output, at, GroupEvent::Failed) == GroupTurnView::Aborted,
{
}

/// After a failed item a group does nothing more, however many are left.
pub proof fn failed_item_ends_the_group(count: int, done: int)
    ensures
        next_of(count, done, Report::Failed) is None,
{
}

/// Why an item failed.
#[derive(Debug, PartialEq, Eq)]
pub enum ItemError {
    /// No track could be bound to this role.
    Selection(String),
    /// A step of the work on the item could not be carried out.
    Work,
}

/// The model of why an item failed.
pub enum ItemErrorView {
    Selection(Seq<char>),
    Work,
}

impl View for ItemError {
    type V = ItemErrorView;

    open spec fn view(&self) -> ItemErrorView {
        match self {
            ItemError::Selection(role) => ItemErrorView::Selection(role@),
            ItemError::Work => ItemErrorView::Work,
        }
    }
}

/// How far the work on an item has come.
#[derive(Debug, PartialEq)]
pub enum ItemProgress {
    /// Nothing has been done: the item is a regular file or not, holds these
    /// entries if it is a directory, and its output is there or not.
    Entered { is_file: bool, children: Vec<Entry>, output_exists: bool },
    /// The containers were normalized and hold these tracks.
    Probed(Vec<Stream>),
    /// The selected tracks went through their stages and are now these.
    Staged(Vec<Stream>),
    /// The output was written.
    Muxed,
    /// A step could not be carried out.
    Failed,
}

/// The model of the progress of an item.
pub enum ItemProgressView {
    Entered { is_file: bool, children: Seq<EntryView>, output_exists: bool },
    Probed(Seq<Track>),
    Staged(Seq<Track>),
    Muxed,
    Failed,
}

impl View for ItemProgress {
    type V = ItemProgressView;

    open spec fn view(&self) -> ItemProgressView {
        match self {
            ItemProgress::Entered { is_file, children, output_exists } => ItemProgressView::Entered {
                is_file: *is_file,
                children: entries_view(children@),
                output_exists: *output_exists,
            },
            ItemProgress::Probed(streams) => ItemProgressView::Probed(tracks_view(streams@)),
            ItemProgress::Staged(streams) => ItemProgressView::Staged(tracks_view(streams@)),
            ItemProgress::Muxed => ItemProgressView::Muxed,
            ItemProgress::Failed => ItemProgressView::Failed,
        }
    }
}

/// What to do next for an item.
#[derive(Debug, PartialEq)]
pub enum ItemOrder {
    /// Nothing: the item is complete, and nothing of it is touched, not even
    /// its working directory.
    Skip,
    /// Make the item's working directory, normalize these containers and
    /// probe their tracks.
    Prepare { files: Vec<String> },
    /// Take each of these picks through its stages, in this order.
    Stage { picks: Vec<(String, Value, Stream)> },
    /// Write these tracks, in this order, into the item's output.
    Mux { tracks: Vec<Stream> },
    /// The item is done.
    Done,
    /// The item has failed, and nothing more is done for it.
    Fail(ItemError),
}

/// The model of an order for an item.
pub enum ItemOrderView {
    Skip,
    Prepare { files: Seq<Seq<char>> },
    Stage { picks: Seq<Pick> },
    Mux { tracks: Seq<Track> },
    Done,
    Fail(ItemErrorView),
}

impl View for ItemOrder {
    type V = ItemOrderView;

    open spec fn view(&self) -> ItemOrderView {
        match self {
            ItemOrder::Skip => ItemOrderView::Skip,
            ItemOrder::Prepare { files } => ItemOrderView::Prepare { files: texts(files@) },
            ItemOrder::Stage { picks } => ItemOrderView::Stage { picks: picks_view(picks@) },
            ItemOrder::Mux { tracks } => ItemOrderView::Mux { tracks: tracks_view(tracks@) },
            ItemOrder::Done => ItemOrderView::Done,
            ItemOrder::Fail(e) => ItemOrderView::Fail(e@),
        }
    }
}

/// What to do next for the item at `path` under the configuration `cfg`.
///
/// An item whose output exists is skipped. Otherwise its containers are
/// prepared; then the roles of the configuration are bound to the tracks that
/// were found, and a role that cannot be bound fails the item before any
/// stage is run; then the picks go through their stages; then what they left
/// is muxed. Whatever could not be carried out fails the item.
pub open spec fn item_order(cfg: Doc, path: Seq<char>, progress: ItemProgressView) -> ItemOrderView {
    match progress {
        ItemProgressView::Entered { is_file, children, output_exists } => match item_plan(
            path,
            is_file,
            children,
            output_exists,
        ) {
            ItemPlanView::Skip => ItemOrderView::Skip,
            ItemPlanView::Work { files } => ItemOrderView::Prepare { files },
        },
        ItemProgressView::Probed(tracks) => match selection(cfg, tracks) {
            Ok(picks) => ItemOrderView::Stage { picks },
            Err(role) => ItemOrderView::Fail(ItemErrorView::Selection(role)),
        },
        ItemProgressView::Staged(tracks) => ItemOrderView::Mux { tracks },
        ItemProgressView::Muxed => ItemOrderView::Done,
        ItemProgressView::Failed => ItemOrderView::Fail(ItemErrorView::Work),
    }
}

/// Decides what to do next for an item.
///
/// The caller carries out each order and comes back with the progress made:
/// after `Prepare` with the tracks it found, after `Stage` with the tracks
/// that the stages left, after `Mux` with `Muxed`; or, where it could not
/// carry out the order, with `Failed`. An item ends with `Skip`, `Done` or
/// `Fail`.
pub fn process_item(cfg: &Value, path: &str, progress: &ItemProgress) -> (r: ItemOrder)
    ensures
        r@ == item_order(cfg@, path@, progress@),
{
    match progress {
        ItemProgress::Entered { is_file, children, output_exists } => {
            match enter_item(path, *is_file, children, *output_exists) {
                ItemPlan::Skip => ItemOrder::Skip,
                ItemPlan::Work { files } => ItemOrder::Prepare { files },
            }
        },
        ItemProgress::Probed(streams) => match find(cfg, streams) {
            Ok(picks) => ItemOrder::Stage { picks },
            Err(e) => ItemOrder::Fail(ItemError::Selection(e.role)),
        },
        ItemProgress::Staged(streams) => {
            let mut tracks: Vec<Stream> = Vec::new();
            let mut i: usize = 0;
            while i < streams.len()
                invariant
                    i <= streams.len(),
                    tracks.len() == i,
                    forall|j: int| 0 <= j < i ==> tracks@[j]@ == streams@[j]@,
                decreases streams.len() - i,
            {
                tracks.push(streams[i].copy());
                i += 1;
            }
            assert(tracks_view(tracks@) =~= tracks_view(streams@));
            ItemOrder::Mux { tracks }
        },
        ItemProgress::Muxed => ItemOrder::Done,
        ItemProgress::Failed => ItemOrder::Fail(ItemError::Work),
    }
}

/// An item whose selection fails has failed: no stage and no mux is ordered
/// for it.
pub proof fn failed_selection_fails_the_item(cfg: Doc, path: Seq<char>, tracks: Seq<Track>)
    requires
        selection(cfg, tracks) is Err,
    ensures
        item_order(cfg, path, ItemProgressView::Probed(tracks)) == ItemOrderView::Fail(
            ItemErrorView::Selection(selection(cfg, tracks)->Err_0),
        ),
{
}

} // verus!
