//! The command table and the meaning of translation, as mathematical values.
//!
//! A token is a `Seq<char>`, an argument list a sequence of tokens, and a
//! table a map from a lowercase command name to the flags that replace it.

use crate::text::{is_flag, lowercase};
use vstd::prelude::*;

verus! {

/// How many commands the fixed table has.
pub const COMMAND_COUNT: usize = 24;

/// The fixed table: each English command with the native flags it stands for.
pub open spec fn command_table() -> Map<Seq<char>, Seq<Seq<char>>> {
    Map::<Seq<char>, Seq<Seq<char>>>::empty()
        .insert("install"@, seq!["-S"@])
        .insert("update"@, seq!["-Syu"@])
        .insert("upgrade"@, seq!["-Syu"@])
        .insert("search"@, seq!["-Ss"@])
        .insert("remove"@, seq!["-R"@])
        .insert("info"@, seq!["-Si"@])
        .insert("list"@, seq!["-Q"@])
        .insert("clean"@, seq!["-Sc"@])
        .insert("download"@, seq!["-Sw"@])
        .insert("reinstall"@, seq!["-S"@, "--needed"@])
        .insert("purge"@, seq!["-Rns"@])
        .insert("autoremove"@, seq!["-Rns"@])
        .insert("installed"@, seq!["-Q"@])
        .insert("orphans"@, seq!["-Qtd"@])
        .insert("foreign"@, seq!["-Qm"@])
        .insert("explicit"@, seq!["-Qe"@])
        .insert("files"@, seq!["-Ql"@])
        .insert("owns"@, seq!["-Qo"@])
        .insert("depends"@, seq!["-Qi"@])
        .insert("refresh"@, seq!["-Sy"@])
        .insert("mirror-update"@, seq!["-Syy"@])
        .insert("check"@, seq!["-Dk"@])
        .insert("verify"@, seq!["-Qk"@])
        .insert("cache-info"@, seq!["-Sc"@, "--print"@])
}

/// `token` has `len` characters, and the first two are `first` and `second`.
pub open spec fn opens_with(token: Seq<char>, len: nat, first: char, second: char) -> bool {
    token.len() == len && token[0] == first && token[1] == second
}

/// The length and the first two characters of each command name. No two
/// names agree in all three, so the names of the table are distinct.
pub proof fn lemma_command_names()
    ensures
        opens_with("install"@, 7, 'i', 'n'),
        opens_with("update"@, 6, 'u', 'p'),
        opens_with("upgrade"@, 7, 'u', 'p'),
        opens_with("search"@, 6, 's', 'e'),
        opens_with("remove"@, 6, 'r', 'e'),
        opens_with("info"@, 4, 'i', 'n'),
        opens_with("list"@, 4, 'l', 'i'),
        opens_with("clean"@, 5, 'c', 'l'),
        opens_with("download"@, 8, 'd', 'o'),
        opens_with("reinstall"@, 9, 'r', 'e'),
        opens_with("purge"@, 5, 'p', 'u'),
        opens_with("autoremove"@, 10, 'a', 'u'),
        opens_with("installed"@, 9, 'i', 'n'),
        opens_with("orphans"@, 7, 'o', 'r'),
        opens_with("foreign"@, 7, 'f', 'o'),
        opens_with("explicit"@, 8, 'e', 'x'),
        opens_with("files"@, 5, 'f', 'i'),
        opens_with("owns"@, 4, 'o', 'w'),
        opens_with("depends"@, 7, 'd', 'e'),
        opens_with("refresh"@, 7, 'r', 'e'),
        opens_with("mirror-update"@, 13, 'm', 'i'),
        opens_with("check"@, 5, 'c', 'h'),
        opens_with("verify"@, 6, 'v', 'e'),
        opens_with("cache-info"@, 10, 'c', 'a'),
{
    reveal_strlit("install");
    reveal_strlit("update");
    reveal_strlit("upgrade");
    reveal_strlit("search");
    reveal_strlit("remove");
    reveal_strlit("info");
    reveal_strlit("list");
    reveal_strlit("clean");
    reveal_strlit("download");
    reveal_strlit("reinstall");
    reveal_strlit("purge");
    reveal_strlit("autoremove");
    reveal_strlit("installed");
    reveal_strlit("orphans");
    reveal_strlit("foreign");
    reveal_strlit("explicit");
    reveal_strlit("files");
    reveal_strlit("owns");
    reveal_strlit("depends");
    reveal_strlit("refresh");
    reveal_strlit("mirror-update");
    reveal_strlit("check");
    reveal_strlit("verify");
    reveal_strlit("cache-info");
}

/// Every command of `table` stands for at least one flag.
pub open spec fn flags_nonempty(table: Map<Seq<char>, Seq<Seq<char>>>) -> bool {
    forall|name: Seq<char>| #[trigger] table.contains_key(name) ==> table[name].len() >= 1
}

/// Every command of the fixed table stands for at least one flag.
pub proof fn lemma_command_flags()
    ensures
        flags_nonempty(command_table()),
{
}

/// Every command of `table` opens its flags with a token in native flag
/// syntax.
pub open spec fn flags_native(table: Map<Seq<char>, Seq<Seq<char>>>) -> bool {
    forall|name: Seq<char>| #[trigger]
        table.contains_key(name) ==> table[name].len() >= 1 && is_flag(table[name][0])
}

/// The flags of every command of the fixed table open with a native flag.
pub proof fn lemma_command_flags_native()
    ensures
        flags_native(command_table()),
{
    reveal_strlit("-S");
    reveal_strlit("-Syu");
    reveal_strlit("-Ss");
    reveal_strlit("-R");
    reveal_strlit("-Si");
    reveal_strlit("-Q");
    reveal_strlit("-Sc");
    reveal_strlit("-Sw");
    reveal_strlit("-Rns");
    reveal_strlit("-Qtd");
    reveal_strlit("-Qm");
    reveal_strlit("-Qe");
    reveal_strlit("-Ql");
    reveal_strlit("-Qo");
    reveal_strlit("-Qi");
    reveal_strlit("-Sy");
    reveal_strlit("-Syy");
    reveal_strlit("-Dk");
    reveal_strlit("-Qk");
    assert(is_flag("-S"@));
    assert(is_flag("-Syu"@));
    assert(is_flag("-Ss"@));
    assert(is_flag("-R"@));
    assert(is_flag("-Si"@));
    assert(is_flag("-Q"@));
    assert(is_flag("-Sc"@));
    assert(is_flag("-Sw"@));
    assert(is_flag("-Rns"@));
    assert(is_flag("-Qtd"@));
    assert(is_flag("-Qm"@));
    assert(is_flag("-Qe"@));
    assert(is_flag("-Ql"@));
    assert(is_flag("-Qo"@));
    assert(is_flag("-Qi"@));
    assert(is_flag("-Sy"@));
    assert(is_flag("-Syy"@));
    assert(is_flag("-Dk"@));
    assert(is_flag("-Qk"@));
}

/// What an argument list becomes once its first token is known to fold to
/// `command`: the flags of `command` followed by the operands when the table
/// has that command, the argument list itself when it has not.
pub open spec fn expansion(
    table: Map<Seq<char>, Seq<Seq<char>>>,
    args: Seq<Seq<char>>,
    command: Seq<char>,
) -> Seq<Seq<char>> {
    if args.len() > 0 && table.contains_key(command) {
        table[command] + args.skip(1)
    } else {
        args
    }
}

/// What an argument list translates to. An empty list and one that opens
/// with a native flag stay as they are; any other list is expanded under the
/// lowercase form of its first token.
pub open spec fn translation(
    table: Map<Seq<char>, Seq<Seq<char>>>,
    args: Seq<Seq<char>>,
) -> Seq<Seq<char>> {
    if args.len() == 0 || is_flag(args[0]) {
        args
    } else {
        expansion(table, args, lowercase(args[0]))
    }
}

/// The table that a list of entries spells out, each entry a command name
/// with its flags. Where a name occurs twice the later entry counts.
pub open spec fn table_of(entries: Seq<(Seq<char>, Seq<Seq<char>>)>) -> Map<
    Seq<char>,
    Seq<Seq<char>>,
>
    decreases entries.len(),
{
    if entries.len() == 0 {
        Map::empty()
    } else {
        table_of(entries.drop_last()).insert(entries.last().0, entries.last().1)
    }
}

/// No command name occurs in two entries.
pub open spec fn distinct_names(entries: Seq<(Seq<char>, Seq<Seq<char>>)>) -> bool {
    forall|i: int, j: int|
        0 <= i < j < entries.len() ==> (#[trigger] entries[i]).0 != (#[trigger] entries[j]).0
}

/// A table holds exactly the names of the entries it was made from.
pub proof fn lemma_table_names(entries: Seq<(Seq<char>, Seq<Seq<char>>)>)
    ensures
        forall|name: Seq<char>| #[trigger]
            table_of(entries).contains_key(name) <==> exists|i: int|
                0 <= i < entries.len() && (#[trigger] entries[i]).0 == name,
    decreases entries.len(),
{
    if entries.len() > 0 {
        let front = entries.drop_last();
        lemma_table_names(front);
        assert forall|name: Seq<char>| #[trigger]
            table_of(entries).contains_key(name) implies exists|i: int|
            0 <= i < entries.len() && (#[trigger] entries[i]).0 == name by {
            if name == entries.last().0 {
                assert(entries[entries.len() - 1].0 == name);
            } else {
                assert(table_of(front).contains_key(name));
                let i = choose|i: int| 0 <= i < front.len() && (#[trigger] front[i]).0 == name;
                assert(entries[i].0 == name);
            }
        }
        assert forall|name: Seq<char>|
            (exists|i: int|
                0 <= i < entries.len() && (#[trigger] entries[i]).0
                    == name) implies #[trigger] table_of(entries).contains_key(name) by {
            let i = choose|i: int| 0 <= i < entries.len() && (#[trigger] entries[i]).0 == name;
            if i < entries.len() - 1 {
                assert(front[i].0 == name);
                assert(table_of(front).contains_key(name));
            }
        }
    }
}

/// With distinct names, a table gives each entry's name that entry's flags.
pub proof fn lemma_table_entry(entries: Seq<(Seq<char>, Seq<Seq<char>>)>, i: int)
    requires
        distinct_names(entries),
        0 <= i < entries.len(),
    ensures
        table_of(entries).contains_key(entries[i].0),
        table_of(entries)[entries[i].0] == entries[i].1,
    decreases entries.len(),
{
    if i < entries.len() - 1 {
        let front = entries.drop_last();
        assert(front[i] == entries[i]);
        assert(distinct_names(front)) by {
            assert forall|a: int, b: int| 0 <= a < b < front.len() implies (#[trigger] front[a]).0
                != (#[trigger] front[b]).0 by {
                assert(front[a] == entries[a] && front[b] == entries[b]);
            }
        }
        lemma_table_entry(front, i);
        assert(entries[i].0 != entries[entries.len() - 1].0);
    }
}

} // verus!
