//! History items and the grammars of the history files of bash, zsh and fish.

use crate::lines::{file_lines, read_lines};
use crate::text::{
    chars_of, has_prefix, is_trimmed, lemma_trim_is_trimmed, same_text, string_of, strip_prefix,
    texts, trim, trim_window, trimmed,
};
use vstd::prelude::*;
use vstd::string::*;

verus! {

/// One command of the history, with the directory it ran in where the file
/// records one.
#[derive(Clone, Debug, PartialEq, Eq)]
pub struct HistoryItem {
    pub cmd: String,
    pub path: Option<String>,
}

/// A history item as plain text.
pub ghost struct ItemView {
    pub cmd: Seq<char>,
    pub path: Option<Seq<char>>,
}

impl View for HistoryItem {
    type V = ItemView;

    open spec fn view(&self) -> ItemView {
        ItemView {
            cmd: self.cmd@,
            path: match self.path {
                Some(p) => Some(p@),
                None => None,
            },
        }
    }
}

/// The items of a history as plain text.
pub open spec fn item_views(items: Seq<HistoryItem>) -> Seq<ItemView> {
    items.map_values(|item: HistoryItem| item@)
}

/// The commands of a history, in its order.
pub open spec fn commands(items: Seq<ItemView>) -> Seq<Seq<char>> {
    items.map_values(|item: ItemView| item.cmd)
}

/// An item without a directory.
pub open spec fn bare_item(cmd: Seq<char>) -> ItemView {
    ItemView { cmd, path: None }
}

/// Whether `c` may stand in the marker that zsh writes before a command: a
/// digit, a colon or a semicolon.
pub open spec fn is_marker_char(c: char) -> bool {
    ('0' <= c && c <= '9') || c == ':' || c == ';'
}

/// `line` without the marker characters it begins with. The marker ends at
/// the first character that is none of them, be it a space: of
/// `: 1700000000:0;ls` the leading colon alone is marker.
pub open spec fn strip_marker(line: Seq<char>) -> Seq<char>
    decreases line.len(),
{
    if line.len() > 0 && is_marker_char(line[0]) {
        strip_marker(line.drop_first())
    } else {
        line
    }
}

/// The command that a line of a bash history holds; empty where it holds none.
pub open spec fn plain_command(line: Seq<char>) -> Seq<char> {
    trim(line)
}

/// The command that a line of a zsh history holds; empty where it holds none.
pub open spec fn zsh_command(line: Seq<char>) -> Seq<char> {
    trim(strip_marker(line))
}

/// The items of a history that holds one command per line: the commands that
/// are not empty, in the order of their lines.
pub open spec fn command_items(commands: Seq<Seq<char>>) -> Seq<ItemView>
    decreases commands.len(),
{
    if commands.len() == 0 {
        Seq::empty()
    } else if commands.last().len() > 0 {
        command_items(commands.drop_last()).push(bare_item(commands.last()))
    } else {
        command_items(commands.drop_last())
    }
}

/// What a bash history of these lines holds.
pub open spec fn parse_plain(lines: Seq<Seq<char>>) -> Seq<ItemView> {
    command_items(lines.map_values(|line: Seq<char>| plain_command(line)))
}

/// What a zsh history of these lines holds.
pub open spec fn parse_zsh(lines: Seq<Seq<char>>) -> Seq<ItemView> {
    command_items(lines.map_values(|line: Seq<char>| zsh_command(line)))
}

/// The words that open a record of a fish history.
pub open spec fn fish_cmd_key() -> Seq<char> {
    seq!['-', ' ', 'c', 'm', 'd', ':', ' ']
}

/// The words that open the directory of a record of a fish history.
pub open spec fn fish_path_key() -> Seq<char> {
    seq![' ', ' ', 'p', 'a', 't', 'h', ':', ' ']
}

/// Where the scan of a fish history stands: the items that are complete, and
/// the record that is still open.
pub ghost struct FishScan {
    pub items: Seq<ItemView>,
    pub pending: Option<ItemView>,
}

/// The complete items once the open record is closed. A record whose command
/// is empty gives no item.
pub open spec fn fish_flush(scan: FishScan) -> Seq<ItemView> {
    match scan.pending {
        Some(item) => if item.cmd.len() > 0 {
            scan.items.push(item)
        } else {
            scan.items
        },
        None => scan.items,
    }
}

/// The scan after one more line. A command line closes the open record and
/// opens one of its own; a directory line gives the open record its
/// directory, and is dropped where no record is open; an empty line closes the
/// open record; any other line changes nothing.
pub open spec fn fish_step(scan: FishScan, line: Seq<char>) -> FishScan {
    if let Some(rest) = strip_prefix(line, fish_cmd_key()) {
        FishScan { items: fish_flush(scan), pending: Some(bare_item(trim(rest))) }
    } else if let Some(rest) = strip_prefix(line, fish_path_key()) {
        match scan.pending {
            Some(item) => FishScan {
                items: scan.items,
                pending: Some(ItemView { cmd: item.cmd, path: Some(trim(rest)) }),
            },
            None => scan,
        }
    } else if line.len() == 0 {
        FishScan { items: fish_flush(scan), pending: None }
    } else {
        scan
    }
}

/// The scan after all of `lines`.
pub open spec fn fish_scan(lines: Seq<Seq<char>>) -> FishScan
    decreases lines.len(),
{
    if lines.len() == 0 {
        FishScan { items: Seq::empty(), pending: None }
    } else {
        fish_step(fish_scan(lines.drop_last()), lines.last())
    }
}

/// What a fish history of these lines holds.
pub open spec fn parse_fish(lines: Seq<Seq<char>>) -> Seq<ItemView> {
    fish_flush(fish_scan(lines))
}

/// What the history file of `shell` holds when its lines are `lines`. A shell
/// other than bash, zsh and fish has no history file, and so no items.
pub open spec fn parse_lines(shell: Seq<char>, lines: Seq<Seq<char>>) -> Seq<ItemView> {
    if shell == "fish"@ {
        parse_fish(lines)
    } else if shell == "zsh"@ {
        parse_zsh(lines)
    } else if shell == "bash"@ {
        parse_plain(lines)
    } else {
        Seq::empty()
    }
}

/// What the history file of `shell` holds when its bytes are `bytes`.
pub open spec fn history_of(shell: Seq<char>, bytes: Seq<u8>) -> Seq<ItemView> {
    parse_lines(shell, file_lines(bytes))
}

/// Whether every item holds a command that is trimmed and not empty.
pub open spec fn well_formed(items: Seq<ItemView>) -> bool {
    forall|i: int|
        0 <= i < items.len() ==> (#[trigger] items[i]).cmd.len() > 0 && is_trimmed(items[i].cmd)
}

/// Decides [`is_marker_char`].
pub fn char_is_marker(c: char) -> (b: bool)
    ensures
        b == is_marker_char(c),
{
    ('0' <= c && c <= '9') || c == ':' || c == ';'
}

/// One step of [`strip_marker`] inside a longer line.
proof fn lemma_strip_marker_step(line: Seq<char>, from: int)
    requires
        0 <= from < line.len(),
    ensures
        is_marker_char(line[from]) ==> strip_marker(line.skip(from)) == strip_marker(
            line.skip(from + 1),
        ),
        !is_marker_char(line[from]) ==> strip_marker(line.skip(from)) == line.skip(from),
{
    assert(line.skip(from).drop_first() =~= line.skip(from + 1));
}

/// The number of marker characters that `chars` begins with.
pub fn marker_len(chars: &Vec<char>) -> (k: usize)
    ensures
        k <= chars@.len(),
        chars@.skip(k as int) == strip_marker(chars@),
{
    let mut k: usize = 0;
    assert(chars@.skip(0) =~= chars@);
    while k < chars.len() && char_is_marker(chars[k])
        invariant
            k <= chars@.len(),
            strip_marker(chars@.skip(k as int)) == strip_marker(chars@),
        decreases chars@.len() - k,
    {
        proof {
            lemma_strip_marker_step(chars@, k as int);
        }
        k += 1;
    }
    k
}

/// The command that a line of a bash history holds.
pub fn parse_plain_line(line: &str) -> (cmd: String)
    ensures
        cmd@ == plain_command(line@),
{
    trimmed(line)
}

/// The command that a line of a zsh history holds.
pub fn parse_zsh_line(line: &str) -> (cmd: String)
    ensures
        cmd@ == zsh_command(line@),
{
    let chars = chars_of(line);
    let k = marker_len(&chars);
    let (start, end) = trim_window(&chars, k, chars.len());
    string_of(&chars, start, end)
}

/// [`command_items`] after one more command.
proof fn lemma_command_items_push(commands: Seq<Seq<char>>, cmd: Seq<char>)
    ensures
        command_items(commands.push(cmd)) == if cmd.len() > 0 {
            command_items(commands).push(bare_item(cmd))
        } else {
            command_items(commands)
        },
{
    assert(commands.push(cmd).drop_last() =~= commands);
}

/// The items of a bash history with these lines.
pub fn read_plain(lines: &[String]) -> (items: Vec<HistoryItem>)
    ensures
        item_views(items@) == parse_plain(texts(lines@)),
{
    let ghost all = texts(lines@);
    let ghost command = |line: Seq<char>| plain_command(line);
    let mut items: Vec<HistoryItem> = Vec::new();
    let mut i: usize = 0;
    while i < lines.len()
        invariant
            i <= lines@.len(),
            all == texts(lines@),
            command == |line: Seq<char>| plain_command(line),
            item_views(items@) == command_items(all.take(i as int).map_values(command)),
        decreases lines@.len() - i,
    {
        let cmd = parse_plain_line(lines[i].as_str());
        proof {
            lemma_command_items_push(all.take(i as int).map_values(command), cmd@);
            assert(all.take(i + 1).map_values(command) =~= all.take(i as int).map_values(
                command,
            ).push(cmd@));
        }
        if !cmd.as_str().is_empty() {
            items.push(HistoryItem { cmd, path: None });
        }
        i += 1;
    }
    assert(all.take(i as int) =~= all);
    items
}

/// The items of a zsh history with these lines.
pub fn read_zsh(lines: &[String]) -> (items: Vec<HistoryItem>)
    ensures
        item_views(items@) == parse_zsh(texts(lines@)),
{
    let ghost all = texts(lines@);
    let ghost command = |line: Seq<char>| zsh_command(line);
    let mut items: Vec<HistoryItem> = Vec::new();
    let mut i: usize = 0;
    while i < lines.len()
        invariant
            i <= lines@.len(),
            all == texts(lines@),
            command == |line: Seq<char>| zsh_command(line),
            item_views(items@) == command_items(all.take(i as int).map_values(command)),
        decreases lines@.len() - i,
    {
        let cmd = parse_zsh_line(lines[i].as_str());
        proof {
            lemma_command_items_push(all.take(i as int).map_values(command), cmd@);
            assert(all.take(i + 1).map_values(command) =~= all.take(i as int).map_values(
                command,
            ).push(cmd@));
        }
        if !cmd.as_str().is_empty() {
            items.push(HistoryItem { cmd, path: None });
        }
        i += 1;
    }
    assert(all.take(i as int) =~= all);
    items
}

/// The open record of a scan as plain text.
pub open spec fn pending_view(pending: Option<HistoryItem>) -> Option<ItemView> {
    match pending {
        Some(item) => Some(item@),
        None => None,
    }
}

/// Closes the open record: it joins `items` where its command is not empty.
fn close_record(items: &mut Vec<HistoryItem>, pending: Option<HistoryItem>)
    ensures
        item_views(final(items)@) == fish_flush(
            FishScan { items: item_views(old(items)@), pending: pending_view(pending) },
        ),
{
    if let Some(item) = pending {
        if !item.cmd.as_str().is_empty() {
            items.push(item);
        }
    }
}

/// The items of a fish history with these lines.
pub fn read_fish(lines: &[String]) -> (items: Vec<HistoryItem>)
    ensures
        item_views(items@) == parse_fish(texts(lines@)),
{
    let ghost all = texts(lines@);
    let cmd_key = chars_of("- cmd: ");
    let path_key = chars_of("  path: ");
    proof {
        reveal_strlit("- cmd: ");
        reveal_strlit("  path: ");
    }
    let mut items: Vec<HistoryItem> = Vec::new();
    let mut pending: Option<HistoryItem> = None;
    let mut i: usize = 0;
    assert(item_views(items@) =~= Seq::empty());
    while i < lines.len()
        invariant
            i <= lines@.len(),
            all == texts(lines@),
            cmd_key@ == fish_cmd_key(),
            path_key@ == fish_path_key(),
            fish_scan(all.take(i as int)) == (FishScan {
                items: item_views(items@),
                pending: pending_view(pending),
            }),
        decreases lines@.len() - i,
    {
        let chars = chars_of(lines[i].as_str());
        assert(all.take(i + 1).drop_last() =~= all.take(i as int));
        if has_prefix(&chars, 0, chars.len(), &cmd_key) {
            let (start, end) = trim_window(&chars, cmd_key.len(), chars.len());
            let cmd = string_of(&chars, start, end);
            close_record(&mut items, pending);
            pending = Some(HistoryItem { cmd, path: None });
        } else if has_prefix(&chars, 0, chars.len(), &path_key) {
            let (start, end) = trim_window(&chars, path_key.len(), chars.len());
            let path = string_of(&chars, start, end);
            pending = match pending {
                Some(item) => Some(HistoryItem { cmd: item.cmd, path: Some(path) }),
                None => None,
            };
        } else if chars.len() == 0 {
            close_record(&mut items, pending);
            pending = None;
        }
        i += 1;
    }
    assert(all.take(i as int) =~= all);
    close_record(&mut items, pending);
    items
}

/// The items that the history file of `shell` holds when its lines are
/// `lines`, earliest first.
pub fn parse_history(shell: &str, lines: &[String]) -> (items: Vec<HistoryItem>)
    ensures
        item_views(items@) == parse_lines(shell@, texts(lines@)),
        well_formed(item_views(items@)),
{
    proof {
        lemma_parse_well_formed(shell@, texts(lines@));
    }
    if same_text(shell, "fish") {
        read_fish(lines)
    } else if same_text(shell, "zsh") {
        read_zsh(lines)
    } else if same_text(shell, "bash") {
        read_plain(lines)
    } else {
        let items: Vec<HistoryItem> = Vec::new();
        items
    }
}

/// The items of a history with one command per line are commands of it, each
/// without a directory and not empty.
proof fn lemma_command_items_shape(commands: Seq<Seq<char>>)
    ensures
        forall|i: int|
            0 <= i < command_items(commands).len() ==> {
                let item = #[trigger] command_items(commands)[i];
                item.path is None && item.cmd.len() > 0 && commands.contains(item.cmd)
            },
    decreases commands.len(),
{
    if commands.len() > 0 {
        let front = commands.drop_last();
        lemma_command_items_shape(front);
    }
}

/// Every item of a bash or zsh history holds a command that is trimmed and
/// not empty, and no directory.
pub proof fn lemma_line_histories_well_formed(lines: Seq<Seq<char>>)
    ensures
        well_formed(parse_plain(lines)),
        well_formed(parse_zsh(lines)),
        forall|i: int| 0 <= i < parse_plain(lines).len() ==> (#[trigger] parse_plain(lines)[i]).path is None,
        forall|i: int| 0 <= i < parse_zsh(lines).len() ==> (#[trigger] parse_zsh(lines)[i]).path is None,
{
    let plain = lines.map_values(|line: Seq<char>| plain_command(line));
    let zsh = lines.map_values(|line: Seq<char>| zsh_command(line));
    lemma_command_items_shape(plain);
    lemma_command_items_shape(zsh);
    assert forall|i: int| 0 <= i < parse_plain(lines).len() implies is_trimmed(
        (#[trigger] parse_plain(lines)[i]).cmd,
    ) by {
        let cmd = parse_plain(lines)[i].cmd;
        let k = choose|k: int| 0 <= k < plain.len() && plain[k] == cmd;
        lemma_trim_is_trimmed(lines[k]);
    }
    assert forall|i: int| 0 <= i < parse_zsh(lines).len() implies is_trimmed(
        (#[trigger] parse_zsh(lines)[i]).cmd,
    ) by {
        let cmd = parse_zsh(lines)[i].cmd;
        let k = choose|k: int| 0 <= k < zsh.len() && zsh[k] == cmd;
        lemma_trim_is_trimmed(strip_marker(lines[k]));
    }
}

/// Whether a scan of a fish history holds trimmed text only: the commands of
/// its items, none of them empty, and the command of its open record.
pub open spec fn scan_well_formed(scan: FishScan) -> bool {
    &&& well_formed(scan.items)
    &&& scan.pending is Some ==> is_trimmed(scan.pending->0.cmd)
}

/// A step of the scan keeps it well formed.
proof fn lemma_fish_step_well_formed(scan: FishScan, line: Seq<char>)
    requires
        scan_well_formed(scan),
    ensures
        scan_well_formed(fish_step(scan, line)),
        well_formed(fish_flush(scan)),
{
    if let Some(rest) = strip_prefix(line, fish_cmd_key()) {
        lemma_trim_is_trimmed(rest);
    }
}

/// The scan of a fish history is well formed after any lines.
proof fn lemma_fish_scan_well_formed(lines: Seq<Seq<char>>)
    ensures
        scan_well_formed(fish_scan(lines)),
    decreases lines.len(),
{
    if lines.len() > 0 {
        lemma_fish_scan_well_formed(lines.drop_last());
        lemma_fish_step_well_formed(fish_scan(lines.drop_last()), lines.last());
    }
}

/// Every item of a history, of whatever shell, holds a command that is
/// trimmed and not empty.
pub proof fn lemma_parse_well_formed(shell: Seq<char>, lines: Seq<Seq<char>>)
    ensures
        well_formed(parse_lines(shell, lines)),
{
    lemma_line_histories_well_formed(lines);
    lemma_fish_scan_well_formed(lines);
}

/// Reading the same lines again gives the same items: what a history holds
/// depends on the shell and on the text of its lines, and on nothing else.
pub proof fn lemma_parse_repeatable(
    shell: Seq<char>,
    first: Seq<Seq<char>>,
    second: Seq<Seq<char>>,
)
    requires
        first =~~= second,
    ensures
        parse_lines(shell, first) == parse_lines(shell, second),
{
}

/// The items that the history file of `shell` holds when its bytes are
/// `bytes`, earliest first. A file that could not be read is a file without
/// bytes.
pub fn load_history(shell: &str, bytes: &[u8]) -> (items: Vec<HistoryItem>)
    ensures
        item_views(items@) == history_of(shell@, bytes@),
        well_formed(item_views(items@)),
{
    let lines = read_lines(bytes);
    parse_history(shell, lines.as_slice())
}

/// Reading the same bytes again gives the same items: what a history holds
/// depends on the shell and on the bytes of its file, and on nothing else.
pub proof fn lemma_load_repeatable(shell: Seq<char>, first: Seq<u8>, second: Seq<u8>)
    requires
        first =~= second,
    ensures
        history_of(shell, first) == history_of(shell, second),
{
}

/// Commands that are trimmed come out of [`command_items`] as they went in,
/// but for the empty ones: to read them again changes nothing.
proof fn lemma_command_items_again(cmds: Seq<Seq<char>>)
    ensures
        command_items(commands(command_items(cmds))) == command_items(cmds),
    decreases cmds.len(),
{
    if cmds.len() > 0 {
        let front = cmds.drop_last();
        lemma_command_items_again(front);
        if cmds.last().len() > 0 {
            assert(commands(command_items(cmds)) =~= commands(command_items(front)).push(
                cmds.last(),
            ));
            lemma_command_items_push(commands(command_items(front)), cmds.last());
        }
    }
}

/// A bash history written out again, one command on a line, reads as the
/// same history.
pub proof fn lemma_plain_history_rereads(lines: Seq<Seq<char>>)
    ensures
        parse_plain(commands(parse_plain(lines))) == parse_plain(lines),
{
    let items = parse_plain(lines);
    let cmds = commands(items);
    lemma_line_histories_well_formed(lines);
    assert(cmds.map_values(|line: Seq<char>| plain_command(line)) =~= cmds);
    lemma_command_items_again(lines.map_values(|line: Seq<char>| plain_command(line)));
}

/// A zsh history written out again, one command on a line, reads as the same
/// history, provided that none of its commands begins with a character that
/// would be taken for a part of the marker.
pub proof fn lemma_zsh_history_rereads(lines: Seq<Seq<char>>)
    requires
        forall|i: int|
            0 <= i < parse_zsh(lines).len() ==> !is_marker_char(
                (#[trigger] parse_zsh(lines)[i]).cmd[0],
            ),
    ensures
        parse_zsh(commands(parse_zsh(lines))) == parse_zsh(lines),
{
    let items = parse_zsh(lines);
    let cmds = commands(items);
    lemma_line_histories_well_formed(lines);
    assert(cmds.map_values(|line: Seq<char>| zsh_command(line)) =~= cmds);
    lemma_command_items_again(lines.map_values(|line: Seq<char>| zsh_command(line)));
}

} // verus!
