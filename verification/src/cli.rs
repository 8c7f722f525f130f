//! The command line: what the program was called with, the table of
//! commands, and the decision of which command a list of arguments asks for.

use vstd::prelude::*;
use vstd::string::*;
use crate::text::{same_text, trim_char, trim_char_matches};

verus! {

/// The program's own directory and the arguments that follow its name.
pub struct Query<'a> {
    pub filepath: &'a str,
    pub(crate) args: &'a [String],
}

/// The table of commands: row 0 holds the basic commands, and below each the
/// forms it takes (an empty entry where there is none).
pub struct Commands<'a> {
    all: [&'a str; 12],
    pub arr: [[&'a str; 5]; 7],
}

/// The parts of the command line handling that decide on one command.
pub struct ArgsHandeler;

/// What a command line asks for.
#[derive(Debug)]
pub enum CliAction {
    /// No arguments at all: warn and show the help.
    NoArguments,
    /// `add task <name>`: create a task (quotes around the name removed).
    AddTask { name: String },
    /// `show tasks`: list the tasks.
    ShowTasks,
    /// `show graph [date]`: chart the day (today when no date is given).
    ShowGraph { date: Option<String> },
    /// `show list [date]`: list the work of the day.
    ShowList { date: Option<String> },
    /// `show status`: list what is running.
    ShowStatus,
    /// `start task <name> [description]`.
    StartTask { name: String, desc: Option<String> },
    /// `start server`.
    StartServer,
    /// `stop task <name> [description]`.
    StopTask { name: String, desc: Option<String> },
    /// `edit tasks [date]`.
    EditTasks { date: Option<String> },
    /// The argument at this position is not a command that fits.
    NotFound { at: usize },
}

/// The command line stops before the argument at `at`, which the command
/// needs.
#[derive(Debug, Clone, Copy, PartialEq, Eq, Structural)]
pub struct MissingArgument {
    pub at: usize,
}

/// A `CliAction` with its texts taken by their characters.
pub enum CliCommand {
    NoArguments,
    AddTask(Seq<char>),
    ShowTasks,
    ShowGraph(Option<Seq<char>>),
    ShowList(Option<Seq<char>>),
    ShowStatus,
    StartTask(Seq<char>, Option<Seq<char>>),
    StartServer,
    StopTask(Seq<char>, Option<Seq<char>>),
    EditTasks(Option<Seq<char>>),
    NotFound(nat),
}

/// The characters of an optional text.
pub open spec fn opt_view(o: Option<String>) -> Option<Seq<char>> {
    match o {
        Some(s) => Some(s@),
        None => None,
    }
}

impl View for CliAction {
    type V = CliCommand;

    open spec fn view(&self) -> CliCommand {
        match self {
            CliAction::NoArguments => CliCommand::NoArguments,
            CliAction::AddTask { name } => CliCommand::AddTask(name@),
            CliAction::ShowTasks => CliCommand::ShowTasks,
            CliAction::ShowGraph { date } => CliCommand::ShowGraph(opt_view(*date)),
            CliAction::ShowList { date } => CliCommand::ShowList(opt_view(*date)),
            CliAction::ShowStatus => CliCommand::ShowStatus,
            CliAction::StartTask { name, desc } => CliCommand::StartTask(name@, opt_view(*desc)),
            CliAction::StartServer => CliCommand::StartServer,
            CliAction::StopTask { name, desc } => CliCommand::StopTask(name@, opt_view(*desc)),
            CliAction::EditTasks { date } => CliCommand::EditTasks(opt_view(*date)),
            CliAction::NotFound { at } => CliCommand::NotFound(*at as nat),
        }
    }
}

/// The outcome of a decision with its texts taken by their characters; a
/// missing argument is given by its position.
pub open spec fn outcome(r: Result<CliAction, MissingArgument>) -> Result<CliCommand, nat> {
    match r {
        Ok(a) => Ok(a@),
        Err(m) => Err(m.at as nat),
    }
}

/// The optional argument at position `k`.
pub open spec fn arg_at(args: Seq<Seq<char>>, k: int) -> Option<Seq<char>> {
    if k < args.len() {
        Some(args[k])
    } else {
        None
    }
}

/// The date argument that may follow a `show` or `edit` form at position `n`.
pub open spec fn date_after(args: Seq<Seq<char>>, n: int) -> Option<Seq<char>> {
    arg_at(args, n + 1)
}

/// The form of a `show` or `edit` command, which reads as empty when fewer
/// than two arguments were given.
pub open spec fn sub_command(args: Seq<Seq<char>>, n: int) -> Seq<char> {
    if args.len() < 2 {
        Seq::empty()
    } else {
        args[n]
    }
}

/// `add task <name>` at position `n`.
pub open spec fn add_command(args: Seq<Seq<char>>, n: int) -> Result<CliCommand, nat> {
    if n >= args.len() {
        Err(n as nat)
    } else if args[n] == "task"@ {
        if n + 1 >= args.len() {
            Err((n + 1) as nat)
        } else {
            Ok(CliCommand::AddTask(trim_char(args[n + 1], '"')))
        }
    } else {
        Ok(CliCommand::NotFound(n as nat))
    }
}

/// `show tasks | graph [date] | list [date] | status` at position `n`.
pub open spec fn show_command(args: Seq<Seq<char>>, n: int) -> Result<CliCommand, nat> {
    let c = sub_command(args, n);
    if c == "tasks"@ {
        Ok(CliCommand::ShowTasks)
    } else if c == "graph"@ {
        Ok(CliCommand::ShowGraph(date_after(args, n)))
    } else if c == "list"@ {
        Ok(CliCommand::ShowList(date_after(args, n)))
    } else if c == "status"@ {
        Ok(CliCommand::ShowStatus)
    } else {
        Ok(CliCommand::NotFound(n as nat))
    }
}

/// `start task <name> [description] | server` at position `n`.
pub open spec fn start_command(args: Seq<Seq<char>>, n: int) -> Result<CliCommand, nat> {
    if n >= args.len() {
        Err(n as nat)
    } else if args[n] == "task"@ {
        if n + 1 >= args.len() {
            Err((n + 1) as nat)
        } else {
            Ok(CliCommand::StartTask(trim_char(args[n + 1], '"'), arg_at(args, n + 2)))
        }
    } else if args[n] == "server"@ {
        Ok(CliCommand::StartServer)
    } else {
        Ok(CliCommand::NotFound(n as nat))
    }
}

/// `stop task <name> [description]` at position `n`; the name is taken as
/// it was typed.
pub open spec fn stop_command(args: Seq<Seq<char>>, n: int) -> Result<CliCommand, nat> {
    if n >= args.len() {
        Err(n as nat)
    } else if args[n] == "task"@ {
        if n + 1 >= args.len() {
            Err((n + 1) as nat)
        } else {
            Ok(CliCommand::StopTask(args[n + 1], arg_at(args, n + 2)))
        }
    } else {
        Ok(CliCommand::NotFound(n as nat))
    }
}

/// `edit tasks [date]` at position `n`.
pub open spec fn edit_command(args: Seq<Seq<char>>, n: int) -> Result<CliCommand, nat> {
    if sub_command(args, n) == "tasks"@ {
        Ok(CliCommand::EditTasks(date_after(args, n)))
    } else {
        Ok(CliCommand::NotFound(n as nat))
    }
}

/// The command that a whole argument list asks for.
pub open spec fn command_of(args: Seq<Seq<char>>) -> Result<CliCommand, nat> {
    if args.len() == 0 {
        Ok(CliCommand::NoArguments)
    } else if args[0] == "add"@ {
        add_command(args, 1)
    } else if args[0] == "show"@ {
        show_command(args, 1)
    } else if args[0] == "start"@ {
        start_command(args, 1)
    } else if args[0] == "stop"@ {
        stop_command(args, 1)
    } else if args[0] == "edit"@ {
        edit_command(args, 1)
    } else {
        Ok(CliCommand::NotFound(0))
    }
}

/// The texts of a list of strings.
pub open spec fn texts(v: Seq<String>) -> Seq<Seq<char>> {
    v.map_values(|s: String| s@)
}

/// The arguments joined, each followed by a space, from position `from` up
/// to (not including) `to`.
pub open spec fn spaced(args: Seq<Seq<char>>, from: int, to: int) -> Seq<char>
    decreases to - from,
{
    if to <= from {
        Seq::empty()
    } else {
        spaced(args, from, to - 1) + args[to - 1] + " "@
    }
}

/// Whether `k` is the position of the last `/` in `s`.
pub open spec fn is_last_slash(s: Seq<char>, k: int) -> bool {
    &&& 0 <= k < s.len()
    &&& s[k] == '/'
    &&& forall|j: int| k < j < s.len() ==> s[j] != '/'
}

/// The table of commands as the program lays it out.
pub open spec fn command_table() -> Seq<Seq<Seq<char>>> {
    seq![
        seq!["add"@, "start"@, "stop"@, "show"@, "edit"@],
        seq!["task 'name'"@, "task 'name'"@, "task 'name'"@, ""@, ""@],
        seq![""@, "server"@, ""@, ""@, ""@],
        seq![""@, ""@, ""@, "tasks ?date"@, "tasks ?date"@],
        seq![""@, ""@, ""@, "graph ?date"@, ""@],
        seq![""@, ""@, ""@, "list ?date"@, ""@],
        seq![""@, ""@, ""@, "status"@, ""@],
    ]
}

/// The entries of `col` that are not empty, in order.
pub open spec fn nonempty_entries(col: Seq<Seq<char>>) -> Seq<Seq<char>>
    decreases col.len(),
{
    if col.len() == 0 {
        Seq::empty()
    } else if col.last().len() > 0 {
        nonempty_entries(col.drop_last()).push(col.last())
    } else {
        nonempty_entries(col.drop_last())
    }
}

/// The texts of a list of string slices.
pub open spec fn str_texts(v: Seq<&str>) -> Seq<Seq<char>> {
    v.map_values(|s: &str| s@)
}

impl<'a> Commands<'a> {
    /// The entry at row `row` and column `col`.
    pub closed spec fn entry(self, row: int, col: int) -> Seq<char> {
        self.arr@[row]@[col]@
    }

    /// The forms listed below the basic command in column `col`.
    pub open spec fn column(self, col: int) -> Seq<Seq<char>> {
        Seq::new(6, |r: int| self.entry(r + 1, col))
    }

    /// The table of commands.
    pub fn new() -> (c: Commands<'a>)
        ensures
            forall|row: int, col: int|
                0 <= row < 7 && 0 <= col < 5 ==> #[trigger] c.entry(row, col) == command_table()[row][col],
    {
        let all: [&'a str; 12] = [
            "",
            "add",
            "start",
            "stop",
            "show",
            "edit",
            "task 'name'",
            "server",
            "tasks ?date",
            "graph ?date",
            "list ?date",
            "status",
        ];
        let arr: [[&'a str; 5]; 7] = [
            [all[1], all[2], all[3], all[4], all[5]],
            [all[6], all[6], all[6], all[0], all[0]],
            [all[0], all[7], all[0], all[0], all[0]],
            [all[0], all[0], all[0], all[8], all[8]],
            [all[0], all[0], all[0], all[9], all[0]],
            [all[0], all[0], all[0], all[10], all[0]],
            [all[0], all[0], all[0], all[11], all[0]],
        ];
        let c = Commands { all, arr };
        assert forall|row: int, col: int|
            0 <= row < 7 && 0 <= col < 5 implies #[trigger] c.entry(row, col)
                == command_table()[row][col] by {}
        c
    }

    /// The non-empty forms listed below the basic command in column `col`,
    /// top to bottom.
    pub fn sub_commands(&self, col: usize) -> (v: Vec<&'a str>)
        requires
            col < 5,
        ensures
            str_texts(v@) == nonempty_entries(self.column(col as int)),
    {
        let mut v: Vec<&'a str> = Vec::new();
        let mut row: usize = 1;
        while row < 7
            invariant
                1 <= row <= 7,
                col < 5,
                str_texts(v@) == nonempty_entries(self.column(col as int).take(row - 1)),
            decreases 7 - row,
        {
            let entry = self.arr[row][col];
            let ghost colv = self.column(col as int);
            assert(colv.take(row as int).drop_last() =~= colv.take(row - 1));
            assert(colv.take(row as int).last() == entry@);
            if !entry.is_empty() {
                v.push(entry);
                assert(str_texts(v@) =~= nonempty_entries(colv.take(row - 1)).push(entry@));
            }
            row = row + 1;
        }
        assert(self.column(col as int).take(6) =~= self.column(col as int));
        v
    }

    /// The column of the basic command `command`, if it is one.
    pub fn basic_index(&self, command: &str) -> (r: Option<usize>)
        ensures
            match r {
                Some(i) => i < 5 && self.entry(0, i as int) == command@ && forall|j: int|
                    0 <= j < i ==> self.entry(0, j) != command@,
                None => forall|j: int| 0 <= j < 5 ==> self.entry(0, j) != command@,
            },
    {
        let mut i: usize = 0;
        while i < 5
            invariant
                i <= 5,
                forall|j: int| 0 <= j < i ==> self.entry(0, j) != command@,
            decreases 5 - i,
        {
            if same_text(self.arr[0][i], command) {
                return Some(i);
            }
            i = i + 1;
        }
        None
    }
}

/// What the user typed with its last character (the line end) removed, or
/// `def` when nothing but the line end was read.
pub open spec fn typed_or_default(line: Seq<char>, bytes_read: nat, def: Seq<char>) -> Seq<char> {
    if bytes_read == 1 {
        def
    } else if line.len() > 0 {
        line.drop_last()
    } else {
        line
    }
}

/// Chooses between a line the user typed (`bytes_read` bytes long) and the
/// default offered.
pub fn input_or_default(line: String, bytes_read: usize, def: &str) -> (r: String)
    ensures
        r@ == typed_or_default(line@, bytes_read as nat, def@),
{
    if bytes_read == 1 {
        return def.to_owned();
    }
    let n = line.as_str().unicode_len();
    if n > 0 {
        line.as_str().substring_char(0, n - 1).to_owned()
    } else {
        line
    }
}

impl<'a> Query<'a> {
    /// The arguments after the program name.
    pub closed spec fn arguments(self) -> Seq<Seq<char>> {
        texts(self.args@)
    }

    /// The program's directory.
    pub closed spec fn directory(self) -> Seq<char> {
        self.filepath@
    }

    /// Splits the command line into the program's directory (the program
    /// path up to its last `/`) and the arguments after the program name.
    pub fn new(args: &'a Vec<String>) -> (q: Query<'a>)
        requires
            args@.len() >= 1,
            args@[0]@.contains('/'),
        ensures
            exists|k: int|
                is_last_slash(args@[0]@, k) && q.directory() == #[trigger] args@[0]@.take(k),
            q.arguments() == texts(args@.skip(1)),
    {
        let path = args[0].as_str();
        let n = path.unicode_len();
        let ghost s = path@;
        let mut k: usize = n;
        let mut found = false;
        while k > 0 && !found
            invariant
                n == s.len(),
                args@.len() >= 1,
                s == args@[0]@,
                s == path@,
                k <= n,
                found ==> k < n && s[k as int] == '/',
                forall|j: int| k < j < n ==> s[j] != '/',
                !found ==> forall|j: int| k <= j < n ==> s[j] != '/',
            decreases k + (if found { 0int } else { 1int }),
        {
            if path.get_char(k - 1) == '/' {
                k = k - 1;
                found = true;
            } else {
                k = k - 1;
            }
        }
        if !found {
            proof {
                let j = choose|j: int| 0 <= j < s.len() && s[j] == '/';
                assert(s[j] != '/');
            }
        }
        let filepath = path.substring_char(0, k);
        let (_program, rest) = args.as_slice().split_at(1);
        let q = Query { filepath, args: rest };
        assert(is_last_slash(s, k as int));
        assert(q.directory() == s.take(k as int));
        assert(q.arguments() =~= texts(args@.skip(1)));
        q
    }

    /// The arguments from position `from` up to (not including) `to`, each
    /// followed by a space.
    pub fn format_args(&self, from: usize, to: usize) -> (s: String)
        requires
            from < to ==> to <= self.arguments().len(),
        ensures
            s@ == spaced(self.arguments(), from as int, to as int),
    {
        let mut out = String::new();
        if to <= from {
            return out;
        }
        let mut i: usize = from;
        while i < to
            invariant
                from <= i <= to,
                to <= self.args@.len(),
                self.arguments() == texts(self.args@),
                out@ == spaced(self.arguments(), from as int, i as int),
            decreases to - i,
        {
            out.append(self.args[i].as_str());
            out.append(" ");
            i = i + 1;
        }
        out
    }

    /// The command these arguments ask for.
    pub fn process_args(&self) -> (r: Result<CliAction, MissingArgument>)
        ensures
            outcome(r) == command_of(self.arguments()),
    {
        let ghost a = self.arguments();
        if self.args.len() == 0 {
            return Ok(CliAction::NoArguments);
        }
        let command = self.args[0].as_str();
        assert(command@ == a[0]);
        if same_text(command, "add") {
            ArgsHandeler::command_add(self, 1)
        } else if same_text(command, "show") {
            ArgsHandeler::command_show(self, 1)
        } else if same_text(command, "start") {
            ArgsHandeler::command_start(self, 1)
        } else if same_text(command, "stop") {
            ArgsHandeler::command_stop(self, 1)
        } else if same_text(command, "edit") {
            ArgsHandeler::command_edit(self, 1)
        } else {
            Ok(CliAction::NotFound { at: 0 })
        }
    }

    /// The arguments after the program name.
    pub fn args(&self) -> (a: &'a [String])
        ensures
            texts(a@) == self.arguments(),
    {
        self.args
    }

    fn arg(&self, k: usize) -> (s: &'a str)
        requires
            k < self.arguments().len(),
        ensures
            s@ == self.arguments()[k as int],
    {
        self.args[k].as_str()
    }

    fn arg_count(&self) -> (n: usize)
        ensures
            n == self.arguments().len(),
    {
        self.args.len()
    }

    fn owned_arg_at(&self, k: usize) -> (o: Option<String>)
        ensures
            opt_view(o) == arg_at(self.arguments(), k as int),
    {
        if k < self.args.len() {
            Some(self.args[k].as_str().to_owned())
        } else {
            None
        }
    }

    /// The form of a `show` or `edit` command.
    fn sub_command(&self, n: usize) -> (s: &'a str)
        requires
            self.arguments().len() < 2 || n < self.arguments().len(),
        ensures
            s@ == sub_command(self.arguments(), n as int),
    {
        if self.arg_count() < 2 {
            let e = "";
            proof {
                reveal_strlit("");
            }
            e
        } else {
            self.arg(n)
        }
    }
}

/// The directory a query names is the text of its `filepath`.
pub(crate) proof fn query_directory(q: &Query)
    ensures
        q.directory() == q.filepath@,
{
}

impl ArgsHandeler {
    /// Decides on `add` whose form is at position `command_n`.
    pub fn command_add(q: &Query, command_n: usize) -> (r: Result<CliAction, MissingArgument>)
        requires
            command_n < usize::MAX,
        ensures
            outcome(r) == add_command(q.arguments(), command_n as int),
    {
        if command_n >= q.arg_count() {
            return Err(MissingArgument { at: command_n });
        }
        if same_text(q.arg(command_n), "task") {
            if command_n + 1 >= q.arg_count() {
                return Err(MissingArgument { at: command_n + 1 });
            }
            let name = trim_char_matches(q.arg(command_n + 1), '"');
            Ok(CliAction::AddTask { name: name.to_owned() })
        } else {
            Ok(CliAction::NotFound { at: command_n })
        }
    }

    /// Decides on `show` whose form is at position `command_n`.
    pub fn command_show(q: &Query, command_n: usize) -> (r: Result<CliAction, MissingArgument>)
        requires
            command_n < usize::MAX,
            q.arguments().len() < 2 || command_n < q.arguments().len(),
        ensures
            outcome(r) == show_command(q.arguments(), command_n as int),
    {
        let command = q.sub_command(command_n);
        if same_text(command, "tasks") {
            Ok(CliAction::ShowTasks)
        } else if same_text(command, "graph") {
            Ok(CliAction::ShowGraph { date: q.owned_arg_at(command_n + 1) })
        } else if same_text(command, "list") {
            Ok(CliAction::ShowList { date: q.owned_arg_at(command_n + 1) })
        } else if same_text(command, "status") {
            Ok(CliAction::ShowStatus)
        } else {
            Ok(CliAction::NotFound { at: command_n })
        }
    }

    /// Decides on `start` whose form is at position `command_n`.
    pub fn command_start(q: &Query, command_n: usize) -> (r: Result<CliAction, MissingArgument>)
        requires
            command_n < usize::MAX - 2,
        ensures
            outcome(r) == start_command(q.arguments(), command_n as int),
    {
        if command_n >= q.arg_count() {
            return Err(MissingArgument { at: command_n });
        }
        let command = q.arg(command_n);
        if same_text(command, "task") {
            if command_n + 1 >= q.arg_count() {
                return Err(MissingArgument { at: command_n + 1 });
            }
            let name = trim_char_matches(q.arg(command_n + 1), '"');
            Ok(CliAction::StartTask { name: name.to_owned(), desc: q.owned_arg_at(command_n + 2) })
        } else if same_text(command, "server") {
            Ok(CliAction::StartServer)
        } else {
            Ok(CliAction::NotFound { at: command_n })
        }
    }

    /// Decides on `stop` whose form is at position `command_n`.
    pub fn command_stop(q: &Query, command_n: usize) -> (r: Result<CliAction, MissingArgument>)
        requires
            command_n < usize::MAX - 2,
        ensures
            outcome(r) == stop_command(q.arguments(), command_n as int),
    {
        if command_n >= q.arg_count() {
            return Err(MissingArgument { at: command_n });
        }
        if same_text(q.arg(command_n), "task") {
            if command_n + 1 >= q.arg_count() {
                return Err(MissingArgument { at: command_n + 1 });
            }
            let name = q.arg(command_n + 1);
            Ok(CliAction::StopTask { name: name.to_owned(), desc: q.owned_arg_at(command_n + 2) })
        } else {
            Ok(CliAction::NotFound { at: command_n })
        }
    }

    /// Decides on `edit` whose form is at position `command_n`.
    pub fn command_edit(q: &Query, command_n: usize) -> (r: Result<CliAction, MissingArgument>)
        requires
            command_n < usize::MAX,
            q.arguments().len() < 2 || command_n < q.arguments().len(),
        ensures
            outcome(r) == edit_command(q.arguments(), command_n as int),
    {
        if same_text(q.sub_command(command_n), "tasks") {
            Ok(CliAction::EditTasks { date: q.owned_arg_at(command_n + 1) })
        } else {
            Ok(CliAction::NotFound { at: command_n })
        }
    }
}

} // verus!
