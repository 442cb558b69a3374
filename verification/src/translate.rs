//! The translator: the fixed command table and the rule that applies it.

use crate::table::{
    command_table, distinct_names, expansion, lemma_command_flags, lemma_command_names,
    lemma_table_entry, lemma_table_names, table_of, translation, COMMAND_COUNT,
};
use crate::text::{is_flag, lowercase, starts_with_dash, to_lowercase};
use vstd::prelude::*;
use vstd::string::StringExecFns;

verus! {

/// One line of the table: a lowercase command name and its flags.
struct Entry {
    name: String,
    flags: Vec<String>,
}

impl Entry {
    spec fn model(&self) -> (Seq<char>, Seq<Seq<char>>) {
        (self.name@, self.flags.deep_view())
    }

    /// An entry that maps `name` to a single flag.
    fn single(name: &str, flag: &str) -> (entry: Entry)
        ensures
            entry.model() == (name@, seq![flag@]),
    {
        let mut flags: Vec<String> = Vec::new();
        flags.push(String::from_str(flag));
        assert(flags.deep_view() =~= seq![flag@]);
        Entry { name: String::from_str(name), flags }
    }

    /// An entry that maps `name` to two flags, in the order given.
    fn pair(name: &str, first: &str, second: &str) -> (entry: Entry)
        ensures
            entry.model() == (name@, seq![first@, second@]),
    {
        let mut flags: Vec<String> = Vec::new();
        flags.push(String::from_str(first));
        flags.push(String::from_str(second));
        assert(flags.deep_view() =~= seq![first@, second@]);
        Entry { name: String::from_str(name), flags }
    }
}

/// The entries as mathematical pairs, in order.
spec fn models(entries: Seq<Entry>) -> Seq<(Seq<char>, Seq<Seq<char>>)> {
    Seq::new(entries.len(), |i: int| entries[i].model())
}

/// Appends an entry whose name the entries do not hold yet.
fn record(entries: &mut Vec<Entry>, entry: Entry)
    requires
        distinct_names(models(old(entries)@)),
        !table_of(models(old(entries)@)).contains_key(entry.model().0),
    ensures
        final(entries)@ == old(entries)@.push(entry),
        distinct_names(models(final(entries)@)),
        table_of(models(final(entries)@)) == table_of(models(old(entries)@)).insert(
            entry.model().0,
            entry.model().1,
        ),
{
    let ghost before = models(entries@);
    entries.push(entry);
    proof {
        let after = models(entries@);
        assert(after.drop_last() =~= before);
        assert(after.last() == entry.model());
        lemma_table_names(before);
        assert forall|i: int, j: int| 0 <= i < j < after.len() implies (#[trigger] after[i]).0
            != (#[trigger] after[j]).0 by {
            assert(after[i] == before[i]);
            if j < before.len() {
                assert(after[j] == before[j]);
            }
        }
    }
}

/// Appends copies of `tokens[from..]` to `out`, in order.
fn append_tokens(out: &mut Vec<String>, tokens: &[String], from: usize)
    requires
        from <= tokens.len(),
    ensures
        final(out).deep_view() == old(out).deep_view() + tokens.deep_view().skip(from as int),
{
    let ghost before = out.deep_view();
    let mut i: usize = from;
    assert(out.deep_view() =~= before + tokens.deep_view().subrange(from as int, i as int));
    while i < tokens.len()
        invariant
            from <= i <= tokens.len(),
            out.deep_view() == before + tokens.deep_view().subrange(from as int, i as int),
        decreases tokens.len() - i,
    {
        let ghost copied = out.deep_view();
        out.push(tokens[i].clone());
        assert(out.deep_view() =~= copied.push(tokens[i as int]@));
        i += 1;
        assert(out.deep_view() =~= before + tokens.deep_view().subrange(from as int, i as int));
    }
    assert(tokens.deep_view().subrange(from as int, i as int) =~= tokens.deep_view().skip(
        from as int,
    ));
}

/// Maps English commands to the native flags of the package tool.
///
/// Every translator holds the same table, [`command_table`], with each command
/// name in it once. The table is built when the translator is made and never
/// changes afterwards.
pub struct CommandTranslator {
    translations: Vec<Entry>,
}

impl View for CommandTranslator {
    type V = Map<Seq<char>, Seq<Seq<char>>>;

    closed spec fn view(&self) -> Map<Seq<char>, Seq<Seq<char>>> {
        table_of(models(self.translations@))
    }
}

impl CommandTranslator {
    #[verifier::type_invariant]
    spec fn well_formed(self) -> bool {
        &&& self.translations.len() == COMMAND_COUNT
        &&& distinct_names(models(self.translations@))
        &&& table_of(models(self.translations@)) == command_table()
    }

    /// A translator with the fixed command table.
    pub fn new() -> (translator: Self)
        ensures
            translator@ == command_table(),
    {
        proof {
            lemma_command_names();
        }
        let mut translations: Vec<Entry> = Vec::new();
        assert(models(translations@) =~= Seq::empty());

        record(&mut translations, Entry::single("install", "-S"));
        record(&mut translations, Entry::single("update", "-Syu"));
        record(&mut translations, Entry::single("upgrade", "-Syu"));
        record(&mut translations, Entry::single("search", "-Ss"));
        record(&mut translations, Entry::single("remove", "-R"));
        record(&mut translations, Entry::single("info", "-Si"));
        record(&mut translations, Entry::single("list", "-Q"));
        record(&mut translations, Entry::single("clean", "-Sc"));

        record(&mut translations, Entry::single("download", "-Sw"));
        record(&mut translations, Entry::pair("reinstall", "-S", "--needed"));
        record(&mut translations, Entry::single("purge", "-Rns"));
        record(&mut translations, Entry::single("autoremove", "-Rns"));

        record(&mut translations, Entry::single("installed", "-Q"));
        record(&mut translations, Entry::single("orphans", "-Qtd"));
        record(&mut translations, Entry::single("foreign", "-Qm"));
        record(&mut translations, Entry::single("explicit", "-Qe"));
        record(&mut translations, Entry::single("files", "-Ql"));
        record(&mut translations, Entry::single("owns", "-Qo"));
        record(&mut translations, Entry::single("depends", "-Qi"));

        record(&mut translations, Entry::single("refresh", "-Sy"));
        record(&mut translations, Entry::single("mirror-update", "-Syy"));

        record(&mut translations, Entry::single("check", "-Dk"));
        record(&mut translations, Entry::single("verify", "-Qk"));
        record(&mut translations, Entry::pair("cache-info", "-Sc", "--print"));

        CommandTranslator { translations }
    }

    /// The flags that the table holds for `command`, if it holds any. The
    /// table knows its commands in lowercase only, and `command` is looked up
    /// as it stands.
    pub fn lookup(&self, command: &String) -> (flags: Option<&Vec<String>>)
        ensures
            self@ == command_table(),
            match flags {
                Some(found) => {
                    self@.contains_key(command@) && found.deep_view() == self@[command@]
                },
                None => !self@.contains_key(command@),
            },
    {
        proof {
            use_type_invariant(self);
        }
        let mut i: usize = 0;
        while i < self.translations.len()
            invariant
                i <= self.translations.len(),
                distinct_names(models(self.translations@)),
                self@ == command_table(),
                forall|j: int|
                    0 <= j < i ==> (#[trigger] models(self.translations@)[j]).0 != command@,
            decreases self.translations.len() - i,
        {
            if self.translations[i].name == *command {
                proof {
                    lemma_table_entry(models(self.translations@), i as int);
                }
                return Some(&self.translations[i].flags);
            }
            i += 1;
        }
        proof {
            lemma_table_names(models(self.translations@));
        }
        None
    }

    /// Rewrites `args` given `command`, the lowercase form of its first
    /// token: the flags of `command` take the place of the first token when
    /// the table holds `command`, and `args` is copied as it is otherwise.
    pub fn expand(&self, args: &[String], command: &String) -> (out: Vec<String>)
        ensures
            self@ == command_table(),
            out.deep_view() == expansion(self@, args.deep_view(), command@),
    {
        proof {
            use_type_invariant(self);
        }
        let mut out: Vec<String> = Vec::new();
        assert(out.deep_view() =~= Seq::empty());
        let mut from: usize = 0;
        if args.len() > 0 {
            if let Some(flags) = self.lookup(command) {
                append_tokens(&mut out, flags.as_slice(), 0);
                from = 1;
            }
        }
        append_tokens(&mut out, args, from);
        assert(out.deep_view() =~= expansion(self@, args.deep_view(), command@));
        out
    }

    /// Translates an argument list for the package tool.
    ///
    /// An empty list, a list that opens with a native flag and a list whose
    /// first token is no command of the table come back as they are. When the
    /// first token is a command of the table, in any mix of upper and lower
    /// case, its flags take its place and the operands follow unchanged.
    pub fn translate(&self, args: &[String]) -> (out: Vec<String>)
        ensures
            self@ == command_table(),
            out.deep_view() == translation(self@, args.deep_view()),
            args.len() == 0 ==> out.len() == 0,
            args.len() > 0 && is_flag(args[0]@) ==> out.deep_view() == args.deep_view(),
            args.len() > 0 && !is_flag(args[0]@) && self@.contains_key(lowercase(args[0]@))
                ==> out.deep_view() == self@[lowercase(args[0]@)] + args.deep_view().skip(1),
            args.len() > 0 && !is_flag(args[0]@) && !self@.contains_key(lowercase(args[0]@))
                ==> out.deep_view() == args.deep_view(),
            out.len() >= args.len(),
    {
        proof {
            use_type_invariant(self);
            lemma_command_flags();
        }
        if args.len() == 0 || starts_with_dash(args[0].as_str()) {
            let mut out: Vec<String> = Vec::new();
            assert(out.deep_view() =~= Seq::empty());
            append_tokens(&mut out, args, 0);
            assert(out.deep_view() =~= args.deep_view());
            return out;
        }
        let command = to_lowercase(args[0].as_str());
        let out = self.expand(args, &command);
        assert(out.deep_view().len() == out.len());
        out
    }

    /// Whether `cmd` is a command of the table, in any mix of upper and
    /// lower case.
    pub fn is_english_command(&self, cmd: &str) -> (known: bool)
        ensures
            self@ == command_table(),
            known == self@.contains_key(lowercase(cmd@)),
    {
        let command = to_lowercase(cmd);
        self.lookup(&command).is_some()
    }

    /// The commands of the table, each once, in no particular order.
    pub fn supported_commands(&self) -> (commands: Vec<&str>)
        ensures
            self@ == command_table(),
            commands.len() == COMMAND_COUNT,
            commands.deep_view().no_duplicates(),
            commands.deep_view().to_set() == self@.dom(),
    {
        proof {
            use_type_invariant(self);
            lemma_table_names(models(self.translations@));
        }
        let mut commands: Vec<&str> = Vec::new();
        let mut i: usize = 0;
        while i < self.translations.len()
            invariant
                i <= self.translations.len(),
                self.translations.len() == COMMAND_COUNT,
                commands.len() == i,
                forall|j: int|
                    0 <= j < i ==> (#[trigger] commands[j])@ == models(self.translations@)[j].0,
            decreases self.translations.len() - i,
        {
            commands.push(self.translations[i].name.as_str());
            i += 1;
        }
        proof {
            let names = commands.deep_view();
            let entries = models(self.translations@);
            assert forall|a: int, b: int|
                0 <= a < names.len() && 0 <= b < names.len() && a != b implies names[a]
                != names[b] by {
                assert(names[a] == entries[a].0 && names[b] == entries[b].0);
            }
            assert forall|name: Seq<char>|
                names.to_set().contains(name) <==> self@.dom().contains(name) by {
                if names.to_set().contains(name) {
                    let j = choose|j: int| 0 <= j < names.len() && names[j] == name;
                    assert(entries[j].0 == name);
                }
                if self@.contains_key(name) {
                    let j = choose|j: int|
                        0 <= j < entries.len() && (#[trigger] entries[j]).0 == name;
                    assert(names[j] == name);
                }
            }
            assert(names.to_set() =~= self@.dom());
        }
        commands
    }
}

} // verus!
