//! What holds of translation for every table and every argument list.
//!
//! Each statement is about [`translation`], the value that
//! `CommandTranslator::translate` returns, and is proved from its definition.

use crate::table::{
    command_table, lemma_command_flags, lemma_command_flags_native, translation,
};
use crate::text::{is_flag, lowercase};
use vstd::prelude::*;

verus! {

/// An empty argument list translates to an empty argument list.
pub proof fn lemma_empty_stays_empty(table: Map<Seq<char>, Seq<Seq<char>>>, args: Seq<Seq<char>>)
    requires
        args.len() == 0,
    ensures
        translation(table, args).len() == 0,
{
}

/// An argument list that opens with a native flag translates to itself.
pub proof fn lemma_flag_passes_through(
    table: Map<Seq<char>, Seq<Seq<char>>>,
    args: Seq<Seq<char>>,
)
    requires
        args.len() > 0,
        is_flag(args[0]),
    ensures
        translation(table, args) == args,
{
}

/// When the first token is a command of the table once folded to lowercase,
/// the translation is the flags of that command followed by the operands.
pub proof fn lemma_command_is_replaced(
    table: Map<Seq<char>, Seq<Seq<char>>>,
    args: Seq<Seq<char>>,
)
    requires
        args.len() > 0,
        !is_flag(args[0]),
        table.contains_key(lowercase(args[0])),
    ensures
        translation(table, args) == table[lowercase(args[0])] + args.skip(1),
        translation(table, args).len() == table[lowercase(args[0])].len() + args.len() - 1,
{
}

/// An argument list whose first token is neither a native flag nor, folded
/// to lowercase, a command of the table translates to itself.
pub proof fn lemma_unknown_passes_through(
    table: Map<Seq<char>, Seq<Seq<char>>>,
    args: Seq<Seq<char>>,
)
    requires
        args.len() > 0,
        !is_flag(args[0]),
        !table.contains_key(lowercase(args[0])),
    ensures
        translation(table, args) == args,
{
}

/// The case of a command does not matter: two argument lists with the same
/// operands, whose first tokens fold to the same command of the table,
/// translate to the same list.
pub proof fn lemma_case_is_ignored(
    table: Map<Seq<char>, Seq<Seq<char>>>,
    left: Seq<Seq<char>>,
    right: Seq<Seq<char>>,
)
    requires
        left.len() > 0,
        right.len() > 0,
        !is_flag(left[0]),
        !is_flag(right[0]),
        lowercase(left[0]) == lowercase(right[0]),
        table.contains_key(lowercase(left[0])),
        left.skip(1) == right.skip(1),
    ensures
        translation(table, left) == translation(table, right),
{
}

/// Only the first token is ever touched: whatever the translation, the
/// operands are its tail, unchanged and in order.
pub proof fn lemma_operands_are_kept(table: Map<Seq<char>, Seq<Seq<char>>>, args: Seq<Seq<char>>)
    requires
        args.len() > 0,
    ensures
        translation(table, args).len() >= args.len() - 1,
        translation(table, args).skip(translation(table, args).len() - (args.len() - 1))
            == args.skip(1),
{
    let out = translation(table, args);
    assert(out.skip(out.len() - (args.len() - 1)) =~= args.skip(1));
}

/// A list that opens with a native flag is a fixed point: translating its
/// translation gives the same list again.
pub proof fn lemma_flags_are_fixed(table: Map<Seq<char>, Seq<Seq<char>>>, args: Seq<Seq<char>>)
    requires
        args.len() > 0,
        is_flag(args[0]),
    ensures
        translation(table, translation(table, args)) == translation(table, args),
{
}

/// Under the fixed table every translation is a fixed point, whatever the
/// list it came from: a replaced command leaves a native flag in front.
pub proof fn lemma_translation_is_idempotent(args: Seq<Seq<char>>)
    ensures
        translation(command_table(), translation(command_table(), args)) == translation(
            command_table(),
            args,
        ),
{
    lemma_command_flags_native();
}

/// Every command of the fixed table stands for at least one flag, so a
/// translation under it is never shorter than the list it came from, and
/// so never shorter than the operands alone.
pub proof fn lemma_translation_is_no_shorter(args: Seq<Seq<char>>)
    ensures
        translation(command_table(), args).len() >= args.len(),
        translation(command_table(), args).len() >= if args.len() >= 1 {
            args.len() - 1
        } else {
            0
        },
{
    lemma_command_flags();
}

} // verus!
