//! Properties that hold across calls of the library's functions.

use vstd::prelude::*;
use crate::cli::{command_of, command_table, spaced, CliCommand};
use crate::task::spec_hex_to_rgb;
use crate::controller::{history_instance, is_running_instance, HistoryRow, RunningRow};
use crate::config::port_of;
use crate::controller::{
    after_create, after_start, after_stop, create_allowed, start_allowed, stop_allowed, TaskLookup,
};
use crate::task_instance::{completed, TaskInstance, TaskStatus};
use crate::text::{
    all_digits, decimal, decimal_digit, digit_value, digits_value, is_digit, occurs_at, parse_unsigned,
    replace_all, strip_leading, strip_trailing, trim_char, unsigned_digits,
};

verus! {

/// Completing a running stretch succeeds once; completing it again returns
/// -1 and changes nothing.
pub proof fn law_complete_once(t: TaskInstance)
    requires
        t.status == TaskStatus::Running,
    ensures
        completed(t).0 == 0,
        completed(completed(t).1).0 == -1,
        completed(completed(t).1).1 == completed(t).1,
{
}

/// For a task that exists, exactly one of starting and stopping it is
/// allowed; for a name with no task, neither is.
pub proof fn law_start_stop_exclusive(l: TaskLookup)
    ensures
        !(start_allowed(l) && stop_allowed(l)),
        l.exists <==> (start_allowed(l) || stop_allowed(l)),
{
}

/// Once a task has been started it cannot be started again, it can be
/// stopped, and stopping it restores what the store reported before.
pub proof fn law_stop_undoes_start(l: TaskLookup)
    requires
        start_allowed(l),
    ensures
        !start_allowed(after_start(l)),
        stop_allowed(after_start(l)),
        after_stop(after_start(l)) == l,
{
}

/// Once a task has been stopped it cannot be stopped again, it can be
/// started, and starting it restores what the store reported before.
pub proof fn law_start_undoes_stop(l: TaskLookup)
    requires
        stop_allowed(l),
    ensures
        !stop_allowed(after_stop(l)),
        start_allowed(after_stop(l)),
        after_start(after_stop(l)) == l,
{
}

/// A task can be created once: afterwards its name is taken, and the new
/// task can be started.
pub proof fn law_create_once(l: TaskLookup)
    requires
        create_allowed(l),
    ensures
        !create_allowed(after_create(l)),
        start_allowed(after_create(l)),
{
}

proof fn lemma_decimal(n: nat)
    ensures
        decimal(n).len() > 0,
        all_digits(decimal(n), 10),
        digits_value(decimal(n), 10) == n,
        decimal(n)[0] != '+',
    decreases n,
{
    let d = decimal(n);
    if n < 10 {
        assert(digit_value(decimal_digit(n)) == n);
        assert(d.drop_last() =~= Seq::<char>::empty());
        assert(digits_value(d, 10) == digits_value(d.drop_last(), 10) * 10 + digit_value(d.last()));
    } else {
        lemma_decimal(n / 10);
        let p = decimal(n / 10);
        assert(digit_value(decimal_digit(n % 10)) == n % 10);
        assert(d.drop_last() =~= p);
        assert(d.last() == decimal_digit(n % 10));
        assert(digits_value(d, 10) == digits_value(p, 10) * 10 + digit_value(d.last()));
        assert(n == (n / 10) * 10 + n % 10);
        assert forall|i: int| 0 <= i < d.len() implies #[trigger] is_digit(d[i], 10) by {
            if i < p.len() {
                assert(d[i] == p[i]);
            }
        }
        assert(d[0] == p[0]);
    }
}

/// The port shown in the server's address reads back as the same port.
pub proof fn law_port_round_trip(port: u16)
    ensures
        port_of(decimal(port as nat)) == Some(port as nat),
{
    lemma_decimal(port as nat);
    assert(unsigned_digits(decimal(port as nat)) == decimal(port as nat));
}

proof fn lemma_strip_leading_shape(s: Seq<char>, c: char)
    ensures
        strip_leading(s, c).len() > 0 ==> strip_leading(s, c)[0] != c,
        exists|k: int| 0 <= k <= s.len() && strip_leading(s, c) == s.subrange(k, s.len() as int),
    decreases s.len(),
{
    if s.len() > 0 && s[0] == c {
        lemma_strip_leading_shape(s.drop_first(), c);
        let k = choose|k: int|
            0 <= k <= s.drop_first().len() && strip_leading(s.drop_first(), c)
                == s.drop_first().subrange(k, s.drop_first().len() as int);
        assert(s.drop_first().subrange(k, s.drop_first().len() as int) =~= s.subrange(
            k + 1,
            s.len() as int,
        ));
    } else {
        assert(s.subrange(0, s.len() as int) =~= s);
    }
}

proof fn lemma_strip_trailing_shape(s: Seq<char>, c: char)
    ensures
        strip_trailing(s, c).len() > 0 ==> strip_trailing(s, c).last() != c,
        strip_trailing(s, c).len() > 0 ==> strip_trailing(s, c)[0] == s[0],
        strip_trailing(s, c).len() <= s.len(),
    decreases s.len(),
{
    if s.len() > 0 && s.last() == c {
        lemma_strip_trailing_shape(s.drop_last(), c);
    }
}

/// Removing the runs of `c` at both ends a second time changes nothing.
pub proof fn law_trim_idempotent(s: Seq<char>, c: char)
    ensures
        trim_char(trim_char(s, c), c) == trim_char(s, c),
{
    let u = strip_leading(s, c);
    let t = strip_trailing(u, c);
    lemma_strip_leading_shape(s, c);
    lemma_strip_trailing_shape(u, c);
    if t.len() > 0 {
        assert(strip_leading(t, c) == t);
        assert(strip_trailing(t, c) == t);
    } else {
        assert(strip_leading(t, c) == t);
        assert(strip_trailing(t, c) == t);
    }
}

/// A text in which the pattern does not occur is left unchanged by
/// replacement.
pub proof fn law_replace_absent(s: Seq<char>, pat: Seq<char>, rep: Seq<char>)
    requires
        pat.len() > 0,
        forall|i: int| !occurs_at(s, pat, i),
    ensures
        replace_all(s, pat, rep) == s,
    decreases s.len(),
{
    if s.len() > 0 {
        let t = s.drop_first();
        assert forall|i: int| !occurs_at(t, pat, i) by {
            if occurs_at(t, pat, i) {
                assert(t.subrange(i, i + pat.len()) =~= s.subrange(i + 1, i + 1 + pat.len()));
                assert(occurs_at(s, pat, i + 1));
            }
        }
        assert(!occurs_at(s, pat, 0));
        law_replace_absent(t, pat, rep);
        assert(seq![s[0]] + t =~= s);
    }
}

/// A command line is answered "not found" at its first word exactly when
/// that word is none of the basic commands; "not found" at a later word
/// comes only after a basic command, whose forms can then be listed.
pub proof fn law_not_found(args: Seq<Seq<char>>)
    requires
        args.len() > 0,
    ensures
        command_of(args) == Ok::<CliCommand, nat>(CliCommand::NotFound(0)) <==> forall|i: int|
            0 <= i < 5 ==> command_table()[0][i] != args[0],
        command_of(args) matches Ok(CliCommand::NotFound(n)) && n > 0 ==> exists|i: int|
            0 <= i < 5 && command_table()[0][i] == args[0],
{
    let row = command_table()[0];
    assert(row[0] == "add"@);
    assert(row[1] == "start"@);
    assert(row[2] == "stop"@);
    assert(row[3] == "show"@);
    assert(row[4] == "edit"@);
}


/// The words of the command line are all different from one another.
proof fn reveal_command_words()
    ensures
        "add"@ != "show"@,
        "add"@ != "start"@,
        "add"@ != "stop"@,
        "add"@ != "edit"@,
        "show"@ != "start"@,
        "show"@ != "stop"@,
        "show"@ != "edit"@,
        "start"@ != "stop"@,
        "start"@ != "edit"@,
        "stop"@ != "edit"@,
        "task"@ != "server"@,
        "tasks"@ != "graph"@,
        "tasks"@ != "list"@,
        "tasks"@ != "status"@,
        "graph"@ != "list"@,
        "graph"@ != "status"@,
        "list"@ != "status"@,
{
    reveal_strlit("add");
    reveal_strlit("show");
    reveal_strlit("start");
    reveal_strlit("stop");
    reveal_strlit("edit");
    reveal_strlit("task");
    reveal_strlit("tasks");
    reveal_strlit("graph");
    reveal_strlit("list");
    reveal_strlit("status");
    reveal_strlit("server");
    assert("add"@.len() == 3);
    assert("show"@.len() == 4 && "stop"@.len() == 4 && "edit"@.len() == 4);
    assert("start"@.len() == 5);
    assert("show"@[1] == 'h' && "stop"@[1] == 't' && "edit"@[1] == 'd');
    assert("show"@[0] == 's' && "edit"@[0] == 'e');
    assert("task"@.len() == 4 && "server"@.len() == 6);
    assert("tasks"@.len() == 5 && "graph"@.len() == 5 && "list"@.len() == 4);
    assert("status"@.len() == 6);
    assert("tasks"@[0] == 't' && "graph"@[0] == 'g');
}

/// The optional argument at position `k` of a command line.
pub open spec fn optional_arg(args: Seq<Seq<char>>, k: int) -> Option<Seq<char>> {
    if k < args.len() {
        Some(args[k])
    } else {
        None
    }
}

/// `show` and `edit` never fail for want of arguments: their date is
/// optional.
pub proof fn law_show_edit_never_missing(args: Seq<Seq<char>>)
    requires
        args.len() > 0,
        args[0] == "show"@ || args[0] == "edit"@,
    ensures
        command_of(args) is Ok,
{
    reveal_command_words();
}

/// `show graph [d]` and `show list [d]` carry the date `d` that follows
/// them, or none when no date is given.
pub proof fn law_show_carries_date(args: Seq<Seq<char>>)
    requires
        args.len() >= 2,
        args[0] == "show"@,
    ensures
        args[1] == "graph"@ ==> command_of(args) == Ok::<CliCommand, nat>(
            CliCommand::ShowGraph(optional_arg(args, 2)),
        ),
        args[1] == "list"@ ==> command_of(args) == Ok::<CliCommand, nat>(
            CliCommand::ShowList(optional_arg(args, 2)),
        ),
        args[1] == "tasks"@ ==> command_of(args) == Ok::<CliCommand, nat>(CliCommand::ShowTasks),
        args[1] == "status"@ ==> command_of(args) == Ok::<CliCommand, nat>(CliCommand::ShowStatus),
        args[1] != "graph"@ && args[1] != "list"@ && args[1] != "tasks"@ && args[1] != "status"@
            ==> command_of(args) == Ok::<CliCommand, nat>(CliCommand::NotFound(1)),
{
    reveal_command_words();
}

/// `edit tasks [d]` edits the day `d`, or today when no date is given.
pub proof fn law_edit_carries_date(args: Seq<Seq<char>>)
    requires
        args.len() >= 2,
        args[0] == "edit"@,
        args[1] == "tasks"@,
    ensures
        command_of(args) == Ok::<CliCommand, nat>(CliCommand::EditTasks(optional_arg(args, 2))),
{
    reveal_command_words();
}

/// `start task n [d]` starts the task `n` (its surrounding quotes removed)
/// with the description `d` when one follows; `start server` starts the
/// server.
pub proof fn law_start_command(args: Seq<Seq<char>>)
    requires
        args.len() >= 2,
        args[0] == "start"@,
    ensures
        args[1] == "task"@ && args.len() >= 3 ==> command_of(args) == Ok::<CliCommand, nat>(
            CliCommand::StartTask(trim_char(args[2], '"'), optional_arg(args, 3)),
        ),
        args[1] == "task"@ && args.len() == 2 ==> command_of(args) == Err::<CliCommand, nat>(2),
        args[1] == "server"@ ==> command_of(args) == Ok::<CliCommand, nat>(CliCommand::StartServer),
{
    reveal_command_words();
}

/// `stop task n [d]` stops the task `n`, named as typed, with the
/// description `d` when one follows.
pub proof fn law_stop_command(args: Seq<Seq<char>>)
    requires
        args.len() >= 2,
        args[0] == "stop"@,
    ensures
        args[1] == "task"@ && args.len() >= 3 ==> command_of(args) == Ok::<CliCommand, nat>(
            CliCommand::StopTask(args[2], optional_arg(args, 3)),
        ),
        args[1] == "task"@ && args.len() == 2 ==> command_of(args) == Err::<CliCommand, nat>(2),
{
    reveal_command_words();
}

/// `add task n` creates the task `n` (its surrounding quotes removed).
pub proof fn law_add_command(args: Seq<Seq<char>>)
    requires
        args.len() >= 2,
        args[0] == "add"@,
        args[1] == "task"@,
    ensures
        args.len() >= 3 ==> command_of(args) == Ok::<CliCommand, nat>(
            CliCommand::AddTask(trim_char(args[2], '"')),
        ),
        args.len() == 2 ==> command_of(args) == Err::<CliCommand, nat>(2),
{
    reveal_command_words();
}

/// `add`, `start` and `stop` alone are missing their form.
pub proof fn law_form_missing(args: Seq<Seq<char>>)
    requires
        args.len() == 1,
        args[0] == "add"@ || args[0] == "start"@ || args[0] == "stop"@,
    ensures
        command_of(args) == Err::<CliCommand, nat>(1),
{
    reveal_command_words();
}

/// A stretch read from a history row keeps the row's task, times, minutes
/// and description, whatever its end; it is running exactly when its end
/// is `"Null"`.
pub proof fn law_history_row_fields(row: HistoryRow)
    ensures
        history_instance(row).task.name == row.name,
        history_instance(row).task.color == row.color,
        history_instance(row).start_time == row.started,
        history_instance(row).end_time == row.ended,
        history_instance(row).duration == row.minutes,
        history_instance(row).desc == row.desc,
        (history_instance(row).status == TaskStatus::Running) <==> row.ended@ == "Null"@,
        row.ended@ != "Null"@ ==> history_instance(row).status == TaskStatus::Complete,
{
}

/// A running stretch read from a running row keeps the row's task, start,
/// minutes and description.
pub proof fn law_running_row_fields(t: TaskInstance, row: RunningRow)
    requires
        is_running_instance(t, row),
    ensures
        t.task.name == row.name,
        t.task.color == row.color,
        t.start_time == row.started,
        t.duration == row.minutes,
        t.desc == row.desc,
        t.status == TaskStatus::Running,
{
}


proof fn lemma_hex_pair(p: Seq<char>)
    requires
        p.len() == 2,
        is_digit(p[0], 16),
        is_digit(p[1], 16),
    ensures
        parse_unsigned(p, 16, 255) == Some((16 * digit_value(p[0]) + digit_value(p[1])) as nat),
{
    let q = p.drop_last();
    assert(q =~= seq![p[0]]);
    assert(q.drop_last() =~= Seq::<char>::empty());
    assert(digits_value(q.drop_last(), 16) == 0);
    assert(q.last() == p[0]);
    assert(digits_value(q, 16) == digit_value(p[0]));
    assert(p.last() == p[1]);
    assert(digits_value(p, 16) == 16 * digit_value(p[0]) + digit_value(p[1]));
    assert(unsigned_digits(p) == p);
    assert(all_digits(p, 16));
}

/// A colour whose first six characters are hexadecimal digits has as
/// channels the numbers those pairs of digits write in base 16; a colour
/// shorter than six characters has none.
pub proof fn law_hex_channels(s: Seq<char>)
    ensures
        s.len() < 6 ==> spec_hex_to_rgb(s) is None,
        s.len() >= 6 && (forall|i: int| 0 <= i < 6 ==> #[trigger] is_digit(s[i], 16)) ==> spec_hex_to_rgb(s)
            == Some(
            (
                (16 * digit_value(s[0]) + digit_value(s[1])) as u8,
                (16 * digit_value(s[2]) + digit_value(s[3])) as u8,
                (16 * digit_value(s[4]) + digit_value(s[5])) as u8,
            ),
        ),
{
    if s.len() >= 6 && (forall|i: int| 0 <= i < 6 ==> #[trigger] is_digit(s[i], 16)) {
        assert(is_digit(s[0], 16) && is_digit(s[1], 16) && is_digit(s[2], 16));
        assert(is_digit(s[3], 16) && is_digit(s[4], 16) && is_digit(s[5], 16));
        lemma_hex_pair(s.subrange(0, 2));
        lemma_hex_pair(s.subrange(2, 4));
        lemma_hex_pair(s.subrange(4, 6));
    }
}

/// Joining the arguments from `from` to `mid` and from `mid` to `to` gives
/// the arguments from `from` to `to`, each followed by one space.
pub proof fn law_spaced_split(args: Seq<Seq<char>>, from: int, mid: int, to: int)
    requires
        from <= mid <= to,
    ensures
        spaced(args, from, mid) + spaced(args, mid, to) == spaced(args, from, to),
        from < to ==> spaced(args, to - 1, to) == args[to - 1] + " "@,
    decreases to - mid,
{
    if mid < to {
        law_spaced_split(args, from, mid, to - 1);
        assert(spaced(args, from, mid) + (spaced(args, mid, to - 1) + args[to - 1] + " "@) =~= (
        spaced(args, from, mid) + spaced(args, mid, to - 1)) + args[to - 1] + " "@);
    } else {
        assert(spaced(args, from, mid) + Seq::<char>::empty() =~= spaced(args, from, mid));
    }
    if from < to {
        assert(spaced(args, to - 1, to - 1) =~= Seq::<char>::empty());
        assert(Seq::<char>::empty() + args[to - 1] + " "@ =~= args[to - 1] + " "@);
    }
}

} // verus!
