//! The next command, suggested from the history and the current directory.

use crate::frequency::{
    is_most_frequent, lemma_most_frequent, lemma_ranking_leads, most_frequent, occurrences,
};
use crate::history::{commands, item_views, HistoryItem};
use crate::paths::{file_name_of, path_file_name};
use crate::tally::{rank_commands, ranked_view};
use crate::text::{
    chars_of, has_prefix, option_text, same_text, string_of, strip_prefix, texts, trim, trim_window,
    trimmed,
};
use vstd::prelude::*;
use vstd::string::*;

verus! {

/// The word that opens a change of directory.
pub open spec fn cd_key() -> Seq<char> {
    seq!['c', 'd', ' ']
}

/// The directory that `cmd` changes to, where it is a change of directory.
pub open spec fn cd_target(cmd: Seq<char>) -> Option<Seq<char>> {
    match strip_prefix(trim(cmd), cd_key()) {
        Some(rest) => Some(trim(rest)),
        None => None,
    }
}

/// Where the scan for directories stands: for each directory the commands
/// attributed to it so far, and the directory that the last command changed
/// to, if it was a change of directory.
pub ghost struct IndexScan {
    pub index: Map<Seq<char>, Seq<Seq<char>>>,
    pub last_dir: Option<Seq<char>>,
}

/// The commands that `index` holds for `dir`; none where it has no entry.
pub open spec fn entry(index: Map<Seq<char>, Seq<Seq<char>>>, dir: Seq<char>) -> Seq<Seq<char>> {
    if index.contains_key(dir) {
        index[dir]
    } else {
        Seq::empty()
    }
}

/// The scan after one more command. A change of directory is remembered and
/// attributed to nothing; any other command is attributed to the directory
/// remembered, which is then forgotten.
pub open spec fn index_step(scan: IndexScan, cmd: Seq<char>) -> IndexScan {
    match cd_target(cmd) {
        Some(dir) => IndexScan { index: scan.index, last_dir: Some(dir) },
        None => match scan.last_dir {
            Some(dir) => IndexScan {
                index: scan.index.insert(dir, entry(scan.index, dir).push(trim(cmd))),
                last_dir: None,
            },
            None => scan,
        },
    }
}

/// The scan after all of `cmds`.
pub open spec fn index_scan(cmds: Seq<Seq<char>>) -> IndexScan
    decreases cmds.len(),
{
    if cmds.len() == 0 {
        IndexScan { index: Map::empty(), last_dir: None }
    } else {
        index_step(index_scan(cmds.drop_last()), cmds.last())
    }
}

/// For each directory name, the commands that were run right after a change
/// to a directory of that name.
pub open spec fn dir_index(cmds: Seq<Seq<char>>) -> Map<Seq<char>, Seq<Seq<char>>> {
    index_scan(cmds).index
}

/// The commands that are no change of directory, as the history holds them.
pub open spec fn other_commands(cmds: Seq<Seq<char>>) -> Seq<Seq<char>>
    decreases cmds.len(),
{
    if cmds.len() == 0 {
        Seq::empty()
    } else if cd_target(cmds.last()) is None {
        other_commands(cmds.drop_last()).push(cmds.last())
    } else {
        other_commands(cmds.drop_last())
    }
}

/// The command to suggest in a directory named `dir`: the most frequent of
/// those attributed to that name, the earliest among equals; where none is
/// attributed to it, the most frequent command that is no change of
/// directory; none where the history holds no such command.
pub open spec fn suggestion(cmds: Seq<Seq<char>>, dir: Seq<char>) -> Option<Seq<char>> {
    if dir_index(cmds).contains_key(dir) {
        most_frequent(dir_index(cmds)[dir])
    } else {
        most_frequent(other_commands(cmds))
    }
}

/// The directory that `cmd` changes to, where it is a change of directory.
pub fn cd_target_of(cmd: &str) -> (target: Option<String>)
    ensures
        option_text(target) == cd_target(cmd@),
{
    let chars = chars_of(cmd);
    let key = chars_of("cd ");
    proof {
        reveal_strlit("cd ");
        assert(chars@.subrange(0, chars@.len() as int) =~= chars@);
    }
    let (start, end) = trim_window(&chars, 0, chars.len());
    if has_prefix(&chars, start, end, &key) {
        assert(chars@.subrange(start as int, end as int).skip(3) =~= chars@.subrange(
            start + 3,
            end as int,
        ));
        let (from, to) = trim_window(&chars, start + 3, end);
        Some(string_of(&chars, from, to))
    } else {
        None
    }
}

/// The commands of `history` that were run right after a change to a
/// directory named `dir`.
pub fn commands_after_cd(history: &[HistoryItem], dir: &str) -> (near: Vec<String>)
    ensures
        texts(near@) == entry(dir_index(commands(item_views(history@))), dir@),
        near@.len() > 0 <==> dir_index(commands(item_views(history@))).contains_key(dir@),
{
    let ghost cmds = commands(item_views(history@));
    let mut near: Vec<String> = Vec::new();
    let mut pending: bool = false;
    let mut i: usize = 0;
    while i < history.len()
        invariant
            i <= history@.len(),
            cmds == commands(item_views(history@)),
            texts(near@) == entry(index_scan(cmds.take(i as int)).index, dir@),
            near@.len() > 0 <==> index_scan(cmds.take(i as int)).index.contains_key(dir@),
            pending <==> index_scan(cmds.take(i as int)).last_dir == Some(dir@),
        decreases history@.len() - i,
    {
        assert(cmds.take(i + 1).drop_last() =~= cmds.take(i as int));
        match cd_target_of(history[i].cmd.as_str()) {
            Some(target) => {
                pending = same_text(target.as_str(), dir);
            },
            None => {
                if pending {
                    let cmd = trimmed(history[i].cmd.as_str());
                    near.push(cmd);
                }
                pending = false;
            },
        }
        i += 1;
    }
    assert(cmds.take(i as int) =~= cmds);
    near
}

/// The commands of `history` that are no change of directory.
pub fn commands_but_cd(history: &[HistoryItem]) -> (far: Vec<String>)
    ensures
        texts(far@) == other_commands(commands(item_views(history@))),
{
    let ghost cmds = commands(item_views(history@));
    let mut far: Vec<String> = Vec::new();
    let mut i: usize = 0;
    while i < history.len()
        invariant
            i <= history@.len(),
            cmds == commands(item_views(history@)),
            texts(far@) == other_commands(cmds.take(i as int)),
        decreases history@.len() - i,
    {
        assert(cmds.take(i + 1).drop_last() =~= cmds.take(i as int));
        if cd_target_of(history[i].cmd.as_str()).is_none() {
            let cmd = history[i].cmd.clone();
            far.push(cmd);
        }
        i += 1;
    }
    assert(cmds.take(i as int) =~= cmds);
    far
}

/// The most frequent of `cmds`, the earliest among equals.
pub fn most_frequent_command(cmds: &[String]) -> (top: Option<String>)
    ensures
        option_text(top) == most_frequent(texts(cmds@)),
{
    let ranked = rank_commands(cmds);
    proof {
        lemma_ranking_leads(texts(cmds@), ranked_view(ranked@));
        lemma_most_frequent(texts(cmds@));
    }
    if ranked.len() > 0 {
        let top = ranked[0].0.clone();
        Some(top)
    } else {
        None
    }
}

/// The command to suggest in a directory named `dir`.
pub fn predict_in_directory(history: &[HistoryItem], dir: &str) -> (next: Option<String>)
    ensures
        option_text(next) == suggestion(commands(item_views(history@)), dir@),
        next is None <==> other_commands(commands(item_views(history@))).len() == 0,
{
    proof {
        lemma_suggestion_absent(commands(item_views(history@)), dir@);
    }
    let near = commands_after_cd(history, dir);
    if near.len() > 0 {
        most_frequent_command(near.as_slice())
    } else {
        let far = commands_but_cd(history);
        most_frequent_command(far.as_slice())
    }
}

/// The name under which a directory is looked up: the final component of its
/// path, and the empty name where the path has none.
pub open spec fn dir_key(name: Option<Seq<char>>) -> Seq<char> {
    match name {
        Some(name) => name,
        None => Seq::empty(),
    }
}

/// The command to suggest when the current directory is `cwd`: the one
/// suggested for the name of its final component.
pub fn predict_next_command(history: &[HistoryItem], cwd: &str) -> (next: Option<String>)
    ensures
        option_text(next) == suggestion(
            commands(item_views(history@)),
            dir_key(path_file_name(cwd@)),
        ),
        next is None <==> other_commands(commands(item_views(history@))).len() == 0,
{
    let dir = match file_name_of(cwd) {
        Some(name) => name,
        None => String::new(),
    };
    predict_in_directory(history, dir.as_str())
}

/// The directory that a scan remembers is the one its last command changed
/// to, and none where that command was no change of directory.
pub proof fn lemma_last_dir(cmds: Seq<Seq<char>>)
    ensures
        index_scan(cmds).last_dir == if cmds.len() > 0 {
            cd_target(cmds.last())
        } else {
            None
        },
{
}

/// A command is attributed to a directory just when it is no change of
/// directory and the command right before it changed to that directory; it
/// then joins the commands of that directory, trimmed, and nothing else
/// changes what a directory holds.
pub proof fn lemma_attribution(cmds: Seq<Seq<char>>, cmd: Seq<char>, dir: Seq<char>)
    ensures
        entry(dir_index(cmds.push(cmd)), dir) == if cd_target(cmd) is None && cmds.len() > 0
            && cd_target(cmds.last()) == Some(dir) {
            entry(dir_index(cmds), dir).push(trim(cmd))
        } else {
            entry(dir_index(cmds), dir)
        },
{
    assert(cmds.push(cmd).drop_last() =~= cmds);
}

/// A directory that the index knows holds at least one command, and the
/// history then holds a command that is no change of directory.
pub proof fn lemma_index_entries(cmds: Seq<Seq<char>>, dir: Seq<char>)
    requires
        dir_index(cmds).contains_key(dir),
    ensures
        dir_index(cmds)[dir].len() > 0,
        other_commands(cmds).len() > 0,
    decreases cmds.len(),
{
    if cmds.len() > 0 {
        let before = index_scan(cmds.drop_last());
        if before.index.contains_key(dir) {
            lemma_index_entries(cmds.drop_last(), dir);
        }
    }
}

/// No command is suggested just when the history holds no command but
/// changes of directory; an empty history is such a history.
pub proof fn lemma_suggestion_absent(cmds: Seq<Seq<char>>, dir: Seq<char>)
    ensures
        suggestion(cmds, dir) is None <==> other_commands(cmds).len() == 0,
        cmds.len() == 0 ==> suggestion(cmds, dir) is None,
{
    if dir_index(cmds).contains_key(dir) {
        lemma_index_entries(cmds, dir);
    }
}

/// The command suggested is one attributed to the directory, as often as any
/// of them; or, where none is attributed to it, one of the commands that are
/// no change of directory, as often as any of those.
pub proof fn lemma_suggestion_source(cmds: Seq<Seq<char>>, dir: Seq<char>)
    requires
        suggestion(cmds, dir) is Some,
    ensures
        is_most_frequent(
            if dir_index(cmds).contains_key(dir) {
                dir_index(cmds)[dir]
            } else {
                other_commands(cmds)
            },
            suggestion(cmds, dir)->0,
        ),
{
    if dir_index(cmds).contains_key(dir) {
        lemma_most_frequent(dir_index(cmds)[dir]);
    } else {
        lemma_most_frequent(other_commands(cmds));
    }
}

/// Whether the command at position `at` is attributed to `dir`: it is no
/// change of directory, and the command right before it changed to `dir`.
pub open spec fn attributed_at(cmds: Seq<Seq<char>>, at: int, dir: Seq<char>) -> bool {
    &&& 1 <= at < cmds.len()
    &&& cd_target(cmds[at]) is None
    &&& cd_target(cmds[at - 1]) == Some(dir)
}

/// The index holds for a directory the commands attributed to it, trimmed,
/// and no others.
pub proof fn lemma_index_members(cmds: Seq<Seq<char>>, dir: Seq<char>)
    ensures
        forall|cmd: Seq<char>|
            #[trigger] entry(dir_index(cmds), dir).contains(cmd) <==> exists|at: int|
                #[trigger] attributed_at(cmds, at, dir) && trim(cmds[at]) == cmd,
    decreases cmds.len(),
{
    let now = entry(dir_index(cmds), dir);
    if cmds.len() > 0 {
        let front = cmds.drop_last();
        let before = entry(dir_index(front), dir);
        lemma_index_members(front, dir);
        let joins = attributed_at(cmds, cmds.len() - 1, dir);
        assert forall|cmd: Seq<char>| #[trigger] now.contains(cmd) implies exists|at: int|
            #[trigger] attributed_at(cmds, at, dir) && trim(cmds[at]) == cmd by {
            let k = choose|k: int| 0 <= k < now.len() && now[k] == cmd;
            if !joins || k < before.len() {
                assert(before.contains(cmd));
                let at = choose|at: int| #[trigger]
                    attributed_at(front, at, dir) && trim(front[at]) == cmd;
                assert(attributed_at(cmds, at, dir));
            }
        }
        assert forall|cmd: Seq<char>|
            (exists|at: int| #[trigger] attributed_at(cmds, at, dir) && trim(cmds[at]) == cmd)
            implies #[trigger] now.contains(cmd) by {
            let at = choose|at: int| #[trigger]
                attributed_at(cmds, at, dir) && trim(cmds[at]) == cmd;
            if at == cmds.len() - 1 {
                assert(now[now.len() - 1] == cmd);
            } else {
                assert(attributed_at(front, at, dir));
                assert(before.contains(cmd));
                let k = choose|k: int| 0 <= k < before.len() && before[k] == cmd;
                assert(now[k] == cmd);
            }
        }
    }
}

/// Among the commands that are no change of directory, each command of the
/// history occurs as often as in the history, and a change of directory not
/// at all.
pub proof fn lemma_other_commands_count(cmds: Seq<Seq<char>>, cmd: Seq<char>)
    ensures
        occurrences(other_commands(cmds), cmd) == if cd_target(cmd) is None {
            occurrences(cmds, cmd)
        } else {
            0
        },
    decreases cmds.len(),
{
    if cmds.len() > 0 {
        lemma_other_commands_count(cmds.drop_last(), cmd);
        if cd_target(cmds.last()) is None {
            assert(other_commands(cmds).drop_last() =~= other_commands(cmds.drop_last()));
        }
    }
}

} // verus!
