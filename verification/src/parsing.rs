//! Command-line arguments: flags that are declared beforehand, with or
//! without a value, and positional arguments.

use crate::text::str_eq;
use vstd::prelude::*;
use vstd::string::*;

verus! {

/// A table from strings to values. A key that is put in again gets the new
/// value.
#[derive(Debug)]
pub struct Table<V> {
    entries: Vec<(String, V)>,
}

/// The table that a list of entries stands for: a later entry replaces an
/// earlier one with the same key.
pub open spec fn table_of<V>(entries: Seq<(String, V)>) -> Map<Seq<char>, V>
    decreases entries.len(),
{
    if entries.len() == 0 {
        Map::empty()
    } else {
        table_of(entries.drop_last()).insert(entries.last().0@, entries.last().1)
    }
}

/// In the table of a list of entries, a key has the value of the last entry
/// with that key, and no value where no entry has it.
proof fn lemma_table_of<V>(entries: Seq<(String, V)>, key: Seq<char>, from: int)
    requires
        0 <= from <= entries.len(),
        forall|j: int| from <= j < entries.len() ==> (#[trigger] entries[j]).0@ != key,
    ensures
        from == 0 ==> !table_of(entries).dom().contains(key),
        from > 0 && entries[from - 1].0@ == key ==> table_of(entries).dom().contains(key)
            && table_of(entries)[key] == entries[from - 1].1,
    decreases entries.len(),
{
    if entries.len() > 0 {
        if from == entries.len() {
            if from > 0 && entries[from - 1].0@ == key {
            }
        } else {
            assert(entries.last().0@ != key);
            lemma_table_of(entries.drop_last(), key, from);
        }
        if from == 0 {
            lemma_table_of(entries.drop_last(), key, 0);
        }
    }
}

impl<V> View for Table<V> {
    type V = Map<Seq<char>, V>;

    closed spec fn view(&self) -> Map<Seq<char>, V> {
        table_of(self.entries@)
    }
}

impl<V> Table<V> {
    /// An empty table.
    pub fn new() -> (res: Self)
        ensures
            res@ == Map::<Seq<char>, V>::empty(),
    {
        Table { entries: Vec::new() }
    }

    /// Gives `key` the value `value`.
    pub fn insert(&mut self, key: String, value: V)
        ensures
            final(self)@ == old(self)@.insert(key@, value),
    {
        self.entries.push((key, value));
        assert(self.entries@.drop_last() =~= old(self).entries@);
    }

    /// The value of `key`, if it has one.
    pub fn get(&self, key: &str) -> (res: Option<&V>)
        ensures
            res is Some <==> self@.dom().contains(key@),
            res matches Some(value) ==> *value == self@[key@],
    {
        let mut i: usize = self.entries.len();
        while i > 0
            invariant
                i <= self.entries@.len(),
                forall|j: int| i <= j < self.entries@.len() ==> (#[trigger] self.entries@[j]).0@ != key@,
            decreases i,
        {
            if str_eq(self.entries[i - 1].0.as_str(), key) {
                proof {
                    lemma_table_of(self.entries@, key@, i as int);
                }
                return Some(&self.entries[i - 1].1);
            }
            i -= 1;
        }
        proof {
            lemma_table_of(self.entries@, key@, 0);
        }
        None
    }

    /// Whether `key` has a value.
    pub fn contains_key(&self, key: &str) -> (res: bool)
        ensures
            res == self@.dom().contains(key@),
    {
        self.get(key).is_some()
    }
}

/// Why arguments could not be parsed.
#[derive(Clone, Copy, Debug, PartialEq, Eq, Structural)]
pub enum ParseError {
    /// An argument with one dash names no declared short flag.
    InvalidShortFlag,
    /// A flag is not declared.
    InvalidLongFlag,
    /// A flag that takes a value is the last argument.
    NoValue,
}

impl ParseError {
    /// The text of the error.
    pub fn message(self) -> (res: &'static str)
        ensures
            res@ == match self {
                ParseError::InvalidShortFlag => "Invalid short flag"@,
                ParseError::InvalidLongFlag => "Invalid long flag"@,
                ParseError::NoValue => "No value provided for flag"@,
            },
    {
        match self {
            ParseError::InvalidShortFlag => "Invalid short flag",
            ParseError::InvalidLongFlag => "Invalid long flag",
            ParseError::NoValue => "No value provided for flag",
        }
    }
}

/// Parsed arguments, as plain values.
pub struct ArgumentsView {
    /// The flags that were given, each with its value if it takes one.
    pub flags: Map<Seq<char>, Option<Seq<char>>>,
    /// The arguments that are no flags, in order.
    pub positionals: Seq<Seq<char>>,
}

/// Parsed arguments.
#[derive(Debug)]
pub struct Arguments {
    /// The flags that were given, each with its value if it takes one.
    pub flags: Table<Option<String>>,
    /// The arguments that are no flags, in order.
    pub positionals: Vec<String>,
}

/// A value that may be there, as characters.
pub open spec fn value_view(value: Option<String>) -> Option<Seq<char>> {
    match value {
        Some(text) => Some(text@),
        None => None,
    }
}

impl View for Arguments {
    type V = ArgumentsView;

    open spec fn view(&self) -> ArgumentsView {
        ArgumentsView {
            flags: self.flags@.map_values(|value: Option<String>| value_view(value)),
            positionals: self.positionals.deep_view(),
        }
    }
}

/// The declared flags, as plain values.
pub struct ParserView {
    /// The long form of each short flag.
    pub short_flags: Map<Seq<char>, Seq<char>>,
    /// For each long flag the number of values that it takes.
    pub long_flags: Map<Seq<char>, u32>,
}

/// The flags that a command line may hold.
#[derive(Debug)]
pub struct Parser {
    /// The long form of each short flag.
    pub short_flags: Table<String>,
    /// For each long flag the number of values that it takes.
    pub long_flags: Table<u32>,
}

impl View for Parser {
    type V = ParserView;

    open spec fn view(&self) -> ParserView {
        ParserView {
            short_flags: self.short_flags@.map_values(|long: String| long@),
            long_flags: self.long_flags@,
        }
    }
}

/// Whether `arg` begins with one dash.
pub open spec fn has_dash(arg: Seq<char>) -> bool {
    arg.len() >= 1 && arg[0] == '-'
}

/// Whether `arg` begins with two dashes.
pub open spec fn has_two_dashes(arg: Seq<char>) -> bool {
    arg.len() >= 2 && arg[0] == '-' && arg[1] == '-'
}

/// The long flag that `arg` names: through its short form behind one dash, or
/// directly behind two dashes; none where `arg` begins with no dash.
pub open spec fn flag_name(parser: ParserView, arg: Seq<char>) -> Result<
    Option<Seq<char>>,
    ParseError,
> {
    if has_two_dashes(arg) {
        Ok(Some(arg.skip(2)))
    } else if has_dash(arg) {
        if parser.short_flags.dom().contains(arg.skip(1)) {
            Ok(Some(parser.short_flags[arg.skip(1)]))
        } else {
            Err(ParseError::InvalidShortFlag)
        }
    } else {
        Ok(None)
    }
}

/// What parsing gives for the arguments from `index` on, when the arguments
/// before have given `flags` and `positionals`.
pub open spec fn parse_from(
    parser: ParserView,
    args: Seq<Seq<char>>,
    index: int,
    flags: Map<Seq<char>, Option<Seq<char>>>,
    positionals: Seq<Seq<char>>,
) -> Result<ArgumentsView, ParseError>
    decreases args.len() - index,
{
    if index < 0 || index >= args.len() {
        Ok(ArgumentsView { flags, positionals })
    } else {
        match flag_name(parser, args[index]) {
            Err(e) => Err(e),
            Ok(None) => parse_from(parser, args, index + 1, flags, positionals.push(args[index])),
            Ok(Some(name)) => if !parser.long_flags.dom().contains(name) {
                Err(ParseError::InvalidLongFlag)
            } else if parser.long_flags[name] > 0 {
                if index + 1 >= args.len() {
                    Err(ParseError::NoValue)
                } else {
                    parse_from(
                        parser,
                        args,
                        index + 2,
                        flags.insert(name, Some(args[index + 1])),
                        positionals,
                    )
                }
            } else {
                parse_from(parser, args, index + 1, flags.insert(name, None), positionals)
            },
        }
    }
}

/// Parsed arguments or an error, as plain values.
pub open spec fn parsed_view(res: Result<Arguments, ParseError>) -> Result<
    ArgumentsView,
    ParseError,
> {
    match res {
        Ok(arguments) => Ok(arguments@),
        Err(e) => Err(e),
    }
}

impl Parser {
    /// A parser that knows no flag.
    pub fn new() -> (res: Self)
        ensures
            res@ == (ParserView { short_flags: Map::empty(), long_flags: Map::empty() }),
    {
        let res = Parser { short_flags: Table::new(), long_flags: Table::new() };
        assert(res@.short_flags =~= Map::<Seq<char>, Seq<char>>::empty());
        res
    }

    /// Declares the flag `long_form`, which takes a value where `count` is
    /// above zero, and its short form where it has one. Neither form may be
    /// empty.
    pub fn add_argument(&mut self, long_form: &str, short_form: Option<&str>, count: u32)
        requires
            long_form@.len() > 0,
            short_form matches Some(short) ==> short@.len() > 0,
        ensures
            final(self)@ == (ParserView {
                short_flags: match short_form {
                    Some(short) => old(self)@.short_flags.insert(short@, long_form@),
                    None => old(self)@.short_flags,
                },
                long_flags: old(self)@.long_flags.insert(long_form@, count),
            }),
    {
        match short_form {
            Some(short) => {
                self.short_flags.insert(String::from_str(short), String::from_str(long_form));
                assert(self@.short_flags =~= old(self)@.short_flags.insert(short@, long_form@));
            },
            None => {},
        }
        self.long_flags.insert(String::from_str(long_form), count);
    }

    /// The long flag that `arg` names, as `flag_name` says.
    fn name_of(&self, arg: &str) -> (res: Result<Option<String>, ParseError>)
        ensures
            match res {
                Ok(name) => flag_name(self@, arg@) == Ok::<Option<Seq<char>>, ParseError>(
                    value_view(name),
                ),
                Err(e) => flag_name(self@, arg@) == Err::<Option<Seq<char>>, ParseError>(e),
            },
    {
        let len = arg.unicode_len();
        if len >= 1 && arg.get_char(0) == '-' {
            if len >= 2 && arg.get_char(1) == '-' {
                let name = arg.substring_char(2, len);
                assert(arg@.subrange(2, len as int) =~= arg@.skip(2));
                Ok(Some(String::from_str(name)))
            } else {
                let short = arg.substring_char(1, len);
                assert(arg@.subrange(1, len as int) =~= arg@.skip(1));
                match self.short_flags.get(short) {
                    Some(long) => Ok(Some(long.clone())),
                    None => Err(ParseError::InvalidShortFlag),
                }
            }
        } else {
            Ok(None)
        }
    }

    /// Parses `args`: an argument behind one dash is the short form of a
    /// flag, an argument behind two dashes a flag, and any other argument is
    /// positional. A flag that takes a value takes the argument that follows
    /// it, whatever that is. A flag that comes twice keeps what came last.
    ///
    /// The first argument that names no declared flag, or that is a flag
    /// without the value that it takes, ends the parsing with an error.
    pub fn parse_args(&self, args: &[String]) -> (res: Result<Arguments, ParseError>)
        ensures
            parsed_view(res) == parse_from(
                self@,
                args.deep_view(),
                0,
                Map::empty(),
                Seq::empty(),
            ),
    {
        let mut flags: Table<Option<String>> = Table::new();
        let mut positionals: Vec<String> = Vec::new();
        let mut index: usize = 0;
        let ghost all = args.deep_view();
        let ghost goal = parse_from(self@, all, 0, Map::empty(), Seq::empty());
        assert(flags@.map_values(|value: Option<String>| value_view(value)) =~= Map::<
            Seq<char>,
            Option<Seq<char>>,
        >::empty());
        assert(positionals.deep_view() =~= Seq::<Seq<char>>::empty());
        while index < args.len()
            invariant
                index <= args@.len(),
                all == args.deep_view(),
                all.len() == args@.len(),
                goal == parse_from(self@, all, 0, Map::empty(), Seq::empty()),
                goal == parse_from(
                    self@,
                    all,
                    index as int,
                    flags@.map_values(|value: Option<String>| value_view(value)),
                    positionals.deep_view(),
                ),
            decreases args@.len() - index,
        {
            let arg = &args[index];
            assert(all[index as int] == arg@);
            let ghost seen_flags = flags@.map_values(|value: Option<String>| value_view(value));
            let ghost seen_positionals = positionals.deep_view();
            let name = match self.name_of(arg.as_str()) {
                Ok(name) => name,
                Err(e) => {
                    return Err(e);
                },
            };
            match name {
                Some(name) => {
                    let count: u32 = match self.long_flags.get(name.as_str()) {
                        Some(count) => *count,
                        None => {
                            return Err(ParseError::InvalidLongFlag);
                        },
                    };
                    if count > 0 {
                        if index + 1 >= args.len() {
                            return Err(ParseError::NoValue);
                        }
                        let value = args[index + 1].clone();
                        assert(all[index + 1] == value@);
                        flags.insert(name, Some(value));
                        assert(flags@.map_values(|value: Option<String>| value_view(value))
                            =~= seen_flags.insert(name@, Some(value@)));
                        index += 2;
                    } else {
                        flags.insert(name, None);
                        assert(flags@.map_values(|value: Option<String>| value_view(value))
                            =~= seen_flags.insert(name@, None));
                        index += 1;
                    }
                },
                None => {
                    positionals.push(arg.clone());
                    assert(positionals.deep_view() =~= seen_positionals.push(arg@));
                    index += 1;
                },
            }
        }
        Ok(Arguments { flags, positionals })
    }
}

} // verus!
