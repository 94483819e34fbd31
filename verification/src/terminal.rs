//! Terminals: which program runs in one, what runs in its foreground, and when
//! its history is dropped.

use vstd::prelude::*;
use crate::protocol::{opt_text, texts};
use crate::server::ForegroundCommand;
use crate::text::{
    char_views, chars_of, equals_from, is_space, is_whitespace,
    law_pieces_are_what_is_between_separators, law_trimmed_end_loses_white_space_alone,
    law_trimmed_start_loses_white_space_alone, own, pieces, split, string_of, trim_end,
    trimmed_end, trimmed_start, without_leading, Separator,
};

verus! {

/// What a terminal reports.
#[derive(Debug, Clone, Copy, PartialEq, Eq, Structural)]
pub enum TermEvent {
    /// The screen may have changed.
    Update,
    /// There is nothing more to read.
    Closed,
}

/// A program and its arguments.
pub struct CommandLine {
    pub program: String,
    pub args: Vec<String>,
    /// Whether the program is told what kind of terminal it runs in.
    pub sets_term: bool,
}

/// What a `CommandLine` says, over mathematical sequences.
#[verifier::ext_equal]
pub struct CommandLineView {
    pub program: Seq<char>,
    pub args: Seq<Seq<char>>,
    pub sets_term: bool,
}

impl View for CommandLine {
    type V = CommandLineView;

    open spec fn view(&self) -> CommandLineView {
        CommandLineView {
            program: self.program@,
            args: texts(self.args@),
            sets_term: self.sets_term,
        }
    }
}

/// Whether a command names a common shell, or none.
pub open spec fn is_shell_command(command: Option<Seq<char>>) -> bool {
    match command {
        Some(c) => is_shell(program_name(c)),
        None => true,
    }
}

/// The program that runs in a terminal: the command that was asked for, or else
/// the shell that the environment names, or else a common one. A shell without
/// arguments is started as a login shell, but on Windows.
pub open spec fn started(
    command: Option<Seq<char>>,
    args: Seq<Seq<char>>,
    shell: Option<Seq<char>>,
    windows: bool,
) -> CommandLineView {
    CommandLineView {
        program: match command {
            Some(c) => c,
            None => match shell {
                Some(s) => s,
                None => if windows {
                    "cmd.exe"@
                } else {
                    "/bin/bash"@
                },
            },
        },
        args: if args.len() == 0 && is_shell_command(command) && !windows {
            seq!["-l"@]
        } else {
            args
        },
        sets_term: !windows,
    }
}

/// Works out the program that runs in a terminal.
pub fn command_line(
    command: Option<String>,
    args: Vec<String>,
    shell: Option<String>,
    windows: bool,
) -> (r: CommandLine)
    ensures
        r@ == started(opt_text(command), texts(args@), opt_text(shell), windows),
{
    let is_shell_name = match &command {
        Some(c) => names_shell(&chars_of(c.as_str())),
        None => true,
    };
    let program = match command {
        Some(c) => c,
        None => match shell {
            Some(s) => s,
            None => if windows {
                own("cmd.exe")
            } else {
                own("/bin/bash")
            },
        },
    };
    if args.len() == 0 && is_shell_name && !windows {
        let mut login: Vec<String> = Vec::new();
        login.push(own("-l"));
        assert(texts(args@) =~= Seq::empty());
        assert(texts(login@) =~= seq!["-l"@]);
        CommandLine { program, args: login, sets_term: !windows }
    } else {
        assert(texts(args@).len() == args@.len());
        CommandLine { program, args, sets_term: !windows }
    }
}

/// The exit code that stands for how a program ended.
pub fn exit_code(success: bool) -> (r: i32)
    ensures
        r == if success {
            0i32
        } else {
            1i32
        },
        r == 0 <==> success,
{
    if success {
        0
    } else {
        1
    }
}

/// Whether the program of a terminal that is given up has to be told to hang up:
/// while it runs and is known.
pub fn should_hang_up(running: bool, child_pid: u32) -> (r: bool)
    ensures
        r == (running && child_pid != 0),
{
    running && child_pid != 0
}

/// The terminal that a process runs in, as listed for that process: none where
/// nothing or `??` is listed.
pub open spec fn listed_tty(output: Seq<char>) -> Option<Seq<char>> {
    let tty = trimmed_start(trimmed_end(output));
    if tty.len() == 0 || tty == "??"@ {
        None
    } else {
        Some(tty)
    }
}

/// Reads the terminal that a process runs in from what was listed for it.
pub fn tty_name(output: &str) -> (r: Option<String>)
    ensures
        opt_text(r) == listed_tty(output@),
{
    let mut v = chars_of(output);
    trim_end(&mut v);
    let ghost trimmed = v@;
    let mut from: usize = 0;
    assert(v@.skip(0) =~= v@);
    while from < v.len() && is_whitespace(v[from])
        invariant
            from <= v@.len(),
            v@ == trimmed,
            trimmed_start(trimmed) == trimmed_start(trimmed.skip(from as int)),
        decreases v@.len() - from,
    {
        assert(trimmed.skip(from as int).drop_first() =~= trimmed.skip(from + 1));
        from += 1;
    }
    assert(trimmed_start(trimmed) == trimmed.skip(from as int));
    if from == v.len() || equals_from(&v, from, "??") {
        return None;
    }
    let rest = v.split_off(from);
    assert(rest@ =~= trimmed.skip(from as int));
    Some(string_of(&rest))
}

/// The last part of a path that is not the current directory.
pub open spec fn last_part(parts: Seq<Seq<char>>) -> Seq<char>
    decreases parts.len(),
{
    if parts.len() == 0 {
        Seq::empty()
    } else if parts.last() == seq!['.'] {
        last_part(parts.drop_last())
    } else if parts.last() == seq!['.', '.'] {
        Seq::empty()
    } else {
        parts.last()
    }
}

/// The name of a program in a command, without its directory and without the
/// dash that marks a login shell.
pub open spec fn program_name(command: Seq<char>) -> Seq<char> {
    without_leading(last_part(pieces(command, Separator::Slash)), '-')
}

/// Whether a program is one of the common shells.
pub open spec fn is_shell(name: Seq<char>) -> bool {
    name == "bash"@ || name == "zsh"@ || name == "sh"@ || name == "fish"@ || name == "dash"@
}

/// Whether a listed process is the one that a layout remembers: it runs in the
/// foreground, and is not just a shell.
pub open spec fn is_foreground(words: Seq<Seq<char>>) -> bool {
    words.len() >= 2 && words[0].contains('+') && !is_shell(program_name(words[1]))
}

/// The words of the first process listed from `i` on that runs in the foreground.
pub open spec fn foreground_from(lines: Seq<Seq<char>>, i: int) -> Option<Seq<Seq<char>>>
    decreases lines.len() - i,
{
    if i < 0 || i >= lines.len() {
        None
    } else if is_foreground(pieces(lines[i], Separator::Space)) {
        Some(pieces(lines[i], Separator::Space))
    } else {
        foreground_from(lines, i + 1)
    }
}

/// What is behind the first line end from `i` on.
pub open spec fn after_line(s: Seq<char>, i: int) -> Seq<char>
    decreases s.len() - i,
{
    if i < 0 || i >= s.len() {
        Seq::empty()
    } else if s[i] == '\n' {
        s.skip(i + 1)
    } else {
        after_line(s, i + 1)
    }
}

/// The words of the process that runs in the foreground, in a list of processes
/// below a line of headings: its state, its command and its arguments.
pub open spec fn listed_foreground(output: Seq<char>) -> Option<Seq<Seq<char>>> {
    foreground_from(pieces(after_line(output, 0), Separator::LineEnd), 0)
}

/// The command and arguments of a process, given its words.
pub open spec fn is_command_of(f: Option<ForegroundCommand>, words: Option<Seq<Seq<char>>>) -> bool {
    match (f, words) {
        (Some(f), Some(w)) => f.command@ == w[1] && texts(f.args@) == w.skip(2),
        (None, None) => true,
        _ => false,
    }
}

fn is_part(v: &Vec<char>, dots: usize) -> (r: bool)
    requires
        dots == 1 || dots == 2,
    ensures
        r == (v@ == if dots == 1 {
            seq!['.']
        } else {
            seq!['.', '.']
        }),
{
    if v.len() != dots {
        return false;
    }
    if dots == 1 {
        assert(v@ =~= seq![v@[0]]);
        v[0] == '.'
    } else {
        assert(v@ =~= seq![v@[0], v@[1]]);
        assert(v@[0] == '.' && v@[1] == '.' ==> v@ == seq!['.', '.']);
        v[0] == '.' && v[1] == '.'
    }
}

fn copy_from(v: &Vec<char>, from: usize) -> (r: Vec<char>)
    requires
        from <= v@.len(),
    ensures
        r@ == v@.skip(from as int),
{
    let mut r: Vec<char> = Vec::new();
    let mut i: usize = from;
    assert(r@ =~= v@.subrange(from as int, i as int));
    while i < v.len()
        invariant
            from <= i <= v@.len(),
            r@ == v@.subrange(from as int, i as int),
        decreases v@.len() - i,
    {
        r.push(v[i]);
        assert(v@.subrange(from as int, i + 1) =~= v@.subrange(from as int, i as int).push(
            v@[i as int],
        ));
        i += 1;
    }
    assert(r@ =~= v@.skip(from as int));
    r
}

fn name_of(command: &Vec<char>) -> (r: Vec<char>)
    ensures
        r@ == program_name(command@),
{
    let parts = split(command, Separator::Slash);
    let ghost all = char_views(parts@);
    let mut n: usize = parts.len();
    assert(all.take(n as int) =~= all);
    while n > 0 && is_part(&parts[n - 1], 1)
        invariant
            n <= parts@.len(),
            all == char_views(parts@),
            last_part(all) == last_part(all.take(n as int)),
        decreases n,
    {
        assert(all.take(n as int).drop_last() =~= all.take(n - 1));
        assert(all.take(n as int).last() == parts@[n - 1]@);
        n -= 1;
    }
    if n == 0 || is_part(&parts[n - 1], 2) {
        assert(n > 0 ==> all.take(n as int).last() == parts@[n - 1]@);
        assert(n > 0 ==> seq!['.', '.'].len() != seq!['.'].len());
        assert(last_part(all) =~= Seq::empty());
        let r: Vec<char> = Vec::new();
        assert(r@ =~= Seq::empty());
        return r;
    }
    assert(all.take(n as int).last() == parts@[n - 1]@);
    let name = &parts[n - 1];
    let mut from: usize = 0;
    assert(name@.skip(0) =~= name@);
    while from < name.len() && name[from] == '-'
        invariant
            from <= name@.len(),
            without_leading(name@, '-') == without_leading(name@.skip(from as int), '-'),
        decreases name@.len() - from,
    {
        assert(name@.skip(from as int).drop_first() =~= name@.skip(from + 1));
        from += 1;
    }
    copy_from(name, from)
}

fn names_shell(command: &Vec<char>) -> (r: bool)
    ensures
        r == is_shell(program_name(command@)),
{
    let name = name_of(command);
    assert(name@.skip(0) =~= name@);
    equals_from(&name, 0, "bash") || equals_from(&name, 0, "zsh") || equals_from(&name, 0, "sh")
        || equals_from(&name, 0, "fish") || equals_from(&name, 0, "dash")
}

fn has_plus(v: &Vec<char>) -> (r: bool)
    ensures
        r == v@.contains('+'),
{
    let mut i: usize = 0;
    while i < v.len()
        invariant
            i <= v@.len(),
            forall|j: int| 0 <= j < i ==> v@[j] != '+',
        decreases v@.len() - i,
    {
        if v[i] == '+' {
            assert(v@[i as int] == '+');
            return true;
        }
        i += 1;
    }
    false
}

fn runs_in_foreground(words: &Vec<Vec<char>>) -> (r: bool)
    ensures
        r == is_foreground(char_views(words@)),
{
    if words.len() < 2 || !has_plus(&words[0]) {
        assert(words@.len() >= 2 ==> char_views(words@)[0] == words@[0]@);
        return false;
    }
    assert(char_views(words@)[0] == words@[0]@ && char_views(words@)[1] == words@[1]@);
    !names_shell(&words[1])
}

fn command_of(words: &Vec<Vec<char>>) -> (r: ForegroundCommand)
    requires
        words@.len() >= 2,
    ensures
        r.command@ == char_views(words@)[1],
        texts(r.args@) == char_views(words@).skip(2),
{
    let mut args: Vec<String> = Vec::new();
    let mut i: usize = 2;
    while i < words.len()
        invariant
            2 <= i <= words@.len(),
            args@.len() == i - 2,
            forall|j: int| 0 <= j < args@.len() ==> (#[trigger] args@[j])@ == words@[j + 2]@,
        decreases words@.len() - i,
    {
        args.push(string_of(&words[i]));
        i += 1;
    }
    assert(texts(args@) =~= char_views(words@).skip(2));
    ForegroundCommand { command: string_of(&words[1]), args }
}

/// Finds the command that runs in the foreground of a terminal in the list of
/// its processes.
pub fn foreground_command(output: &str) -> (r: Option<ForegroundCommand>)
    ensures
        is_command_of(r, listed_foreground(output@)),
{
    let v = chars_of(output);
    let mut i: usize = 0;
    while i < v.len() && v[i] != '\n'
        invariant
            i <= v@.len(),
            v@ == output@,
            after_line(v@, 0) == after_line(v@, i as int),
        decreases v@.len() - i,
    {
        i += 1;
    }
    if i == v.len() {
        assert(after_line(v@, 0) =~= Seq::empty());
        assert(pieces(after_line(v@, 0), Separator::LineEnd) =~= Seq::empty());
        return None;
    }
    let rest = copy_from(&v, i + 1);
    let lines = split(&rest, Separator::LineEnd);
    let ghost all = char_views(lines@);
    let mut n: usize = 0;
    while n < lines.len()
        invariant
            n <= lines@.len(),
            all == char_views(lines@),
            listed_foreground(output@) == foreground_from(all, n as int),
        decreases lines@.len() - n,
    {
        let words = split(&lines[n], Separator::Space);
        assert(all[n as int] == lines@[n as int]@);
        if runs_in_foreground(&words) {
            return Some(command_of(&words));
        }
        n += 1;
    }
    None
}

/// What an application sends to have the history dropped.
pub open spec fn clear_sequence() -> Seq<u8> {
    seq![0x1bu8, 0x5b, 0x33, 0x4a]
}

/// Whether output, up to some place, ends in the sequence that drops the history.
pub open spec fn clears_at(output: Seq<u8>, end: int) -> bool {
    4 <= end <= output.len() && output.subrange(end - 4, end) == clear_sequence()
}

/// Whether output holds the sequence that drops the history.
pub open spec fn clears_history(output: Seq<u8>) -> bool {
    exists|end: int| clears_at(output, end)
}

/// Whether the last sequence in output that drops the history ends at a place.
pub open spec fn is_last_clear(output: Seq<u8>, end: int) -> bool {
    clears_at(output, end) && forall|e: int| #[trigger] clears_at(output, e) ==> e <= end
}

/// The last bytes of output, as many as the sequence can have before its end.
pub open spec fn last_bytes(output: Seq<u8>) -> Seq<u8> {
    if output.len() <= 3 {
        output
    } else {
        output.skip(output.len() - 3)
    }
}

/// Watches the output of an application for the sequence that drops the history,
/// also where it comes in pieces.
pub struct HistoryWatch {
    pub tail: Vec<u8>,
}

impl HistoryWatch {
    pub open spec fn wf(&self) -> bool {
        self.tail@.len() <= 3
    }

    pub fn new() -> (r: Self)
        ensures
            r.wf(),
            r.tail@ == Seq::<u8>::empty(),
    {
        HistoryWatch { tail: Vec::new() }
    }

    /// Looks through more output. Returns how much of it there is up to the end of
    /// the last sequence that was completed in it, if any was.
    pub fn feed(&mut self, bytes: &[u8]) -> (r: Option<usize>)
        requires
            old(self).wf(),
        ensures
            final(self).wf(),
            final(self).tail@ == last_bytes(old(self).tail@ + bytes@),
            match r {
                Some(n) => n <= bytes@.len() && is_last_clear(
                    old(self).tail@ + bytes@,
                    old(self).tail@.len() + n,
                ),
                None => !clears_history(old(self).tail@ + bytes@),
            },
    {
        let ghost before = self.tail@;
        let mut found: Option<usize> = None;
        let mut i: usize = 0;
        assert(before + bytes@.take(0) =~= before);
        while i < bytes.len()
            invariant
                i <= bytes@.len(),
                before.len() <= 3,
                self.tail@ == last_bytes(before + bytes@.take(i as int)),
                match found {
                    Some(n) => n <= i && is_last_clear(
                        before + bytes@.take(i as int),
                        before.len() + n,
                    ),
                    None => !clears_history(before + bytes@.take(i as int)),
                },
            decreases bytes@.len() - i,
        {
            let ghost seen = before + bytes@.take(i as int);
            let ghost more = before + bytes@.take(i + 1);
            assert(more =~= seen.push(bytes@[i as int]));
            let b: u8 = bytes[i];
            let here = self.tail.len() == 3 && self.tail[0] == 0x1b && self.tail[1] == 0x5b
                && self.tail[2] == 0x33 && b == 0x4a;
            proof {
                let end = more.len() as int;
                if here {
                    assert(more.subrange(end - 4, end) =~= clear_sequence());
                    assert(clears_at(more, end));
                }
                if clears_at(more, end) {
                    let s = more.subrange(end - 4, end);
                    assert(s[0] == 0x1b && s[1] == 0x5b && s[2] == 0x33 && s[3] == 0x4a);
                    assert(seen.len() >= 3);
                    assert(here);
                }
                assert forall|e: int| e < end implies clears_at(more, e) == #[trigger] clears_at(
                    seen,
                    e,
                ) by {
                    if 4 <= e {
                        assert(more.subrange(e - 4, e) =~= seen.subrange(e - 4, e));
                    }
                }
                assert forall|e: int| e < end && #[trigger] clears_at(more, e) implies clears_at(
                    seen,
                    e,
                ) by {
                    assert(clears_at(more, e) == clears_at(seen, e));
                }
            }
            if here {
                found = Some(i + 1);
            }
            if self.tail.len() == 3 {
                self.tail.remove(0);
            }
            self.tail.push(b);
            assert(self.tail@ =~= last_bytes(more));
            i += 1;
        }
        assert(bytes@.take(bytes@.len() as int) =~= bytes@);
        found
    }
}

/// The sequence is noticed once it is complete, in whatever pieces it comes: it
/// is in the output as a whole where it was in it before, or is in the last
/// bytes before and the new output.
pub proof fn law_sequence_is_found_in_pieces(before: Seq<u8>, more: Seq<u8>)
    ensures
        clears_history(before + more) <==> clears_history(before) || clears_history(
            last_bytes(before) + more,
        ),
        last_bytes(last_bytes(before) + more) == last_bytes(before + more),
{
    let all = before + more;
    let tail = last_bytes(before) + more;
    let cut = before.len() - last_bytes(before).len();
    assert(last_bytes(tail) =~= last_bytes(all));
    assert(tail =~= all.skip(cut));
    if clears_history(before) {
        let e = choose|e: int| clears_at(before, e);
        assert(all.subrange(e - 4, e) =~= before.subrange(e - 4, e));
        assert(clears_at(all, e));
    }
    if clears_history(tail) {
        let e = choose|e: int| clears_at(tail, e);
        assert(all.subrange(e + cut - 4, e + cut) =~= tail.subrange(e - 4, e));
        assert(clears_at(all, e + cut));
    }
    if clears_history(all) {
        let e = choose|e: int| clears_at(all, e);
        if e <= before.len() {
            assert(before.subrange(e - 4, e) =~= all.subrange(e - 4, e));
            assert(clears_at(before, e));
        } else {
            assert(tail.subrange(e - cut - 4, e - cut) =~= all.subrange(e - 4, e));
            assert(clears_at(tail, e - cut));
        }
    }
}

/// A terminal runs the command that was asked for, with its arguments; where none
/// was, the shell of the environment, or else a common one. It is told what kind of
/// terminal it is, but on Windows.
pub proof fn law_terminal_runs_what_was_asked_for(
    command: Option<Seq<char>>,
    args: Seq<Seq<char>>,
    shell: Option<Seq<char>>,
    windows: bool,
)
    ensures
        ({
            let line = started(command, args, shell, windows);
            &&& command is Some ==> line.program == command->0
            &&& command is None && shell is Some ==> line.program == shell->0
            &&& command is None && shell is None && !windows ==> line.program == "/bin/bash"@
            &&& command is None && shell is None && windows ==> line.program == "cmd.exe"@
            &&& args.len() > 0 ==> line.args == args
            &&& windows ==> line.args == args
            &&& command is None && args.len() == 0 && !windows ==> line.args == seq!["-l"@]
            &&& line.sets_term == !windows
        }),
{
}

/// A shell is started as a login shell where no arguments are given, whatever
/// directory it is in; another program is started without arguments then.
pub proof fn law_shells_are_login_shells(
    dir: Seq<char>,
    name: Seq<char>,
    shell: Option<Seq<char>>,
)
    requires
        name.len() > 0,
        !name.contains('/'),
        name[0] != '-',
        name[0] != '.',
    ensures
        ({
            let known = name == "bash"@ || name == "zsh"@ || name == "sh"@ || name == "fish"@
                || name == "dash"@;
            let args = if known {
                seq!["-l"@]
            } else {
                Seq::<Seq<char>>::empty()
            };
            &&& started(Some(name), Seq::empty(), shell, false).args == args
            &&& started(Some(dir.push('/') + name), Seq::empty(), shell, false).args == args
        }),
{
    lemma_name_in_directory(dir, name);
}

proof fn lemma_name_in_directory(dir: Seq<char>, name: Seq<char>)
    requires
        name.len() > 0,
        !name.contains('/'),
        name[0] != '-',
        name[0] != '.',
    ensures
        program_name(name) == name,
        program_name(dir.push('/') + name) == name,
{
    assert forall|i: int| 0 <= i < name.len() implies !Separator::Slash.is(#[trigger] name[i]) by {
        assert(name.contains(name[i]));
    }
    law_pieces_are_what_is_between_separators(name, '/', Seq::empty(), Separator::Slash);
    law_pieces_are_what_is_between_separators(dir, '/', name, Separator::Slash);
    let parts = pieces(dir, Separator::Slash) + seq![name];
    assert(parts.last() == name);
    assert(name != seq!['.'] && name != seq!['.', '.']);
    assert(seq![name].last() == name);
}

/// A login shell is known by its name with a dash before it.
pub proof fn law_dash_before_a_name_does_not_count(name: Seq<char>)
    requires
        name.len() > 0,
        !name.contains('/'),
        name[0] != '-',
        name[0] != '.',
    ensures
        program_name(seq!['-'] + name) == program_name(name),
{
    let dashed = seq!['-'] + name;
    lemma_name_in_directory(Seq::empty(), name);
    assert forall|i: int| 0 <= i < dashed.len() implies !Separator::Slash.is(
        #[trigger] dashed[i],
    ) by {
        if i > 0 {
            assert(dashed[i] == name[i - 1]);
            assert(name.contains(name[i - 1]));
        }
    }
    law_pieces_are_what_is_between_separators(dashed, '/', Seq::empty(), Separator::Slash);
    assert(seq![dashed].last() == dashed);
    assert(dashed != seq!['.']);
    assert(dashed[0] == '-');
    assert(dashed != seq!['.', '.']);
    assert(dashed.drop_first() =~= name);
    assert(without_leading(name, '-') == name);
}

/// The name of a terminal is what is listed, without white space around it; where
/// nothing is listed, or two question marks, there is none.
pub proof fn law_terminal_name_is_what_is_listed(
    before: Seq<char>,
    name: Seq<char>,
    after: Seq<char>,
)
    requires
        forall|i: int| 0 <= i < before.len() ==> is_space(#[trigger] before[i]),
        forall|i: int| 0 <= i < after.len() ==> is_space(#[trigger] after[i]),
        name.len() > 0 ==> !is_space(name[0]) && !is_space(name.last()),
    ensures
        name.len() > 0 && name != "??"@ ==> listed_tty(before + name + after) == Some(name),
        name.len() == 0 || name == "??"@ ==> listed_tty(before + name + after) is None,
{
    let all = before + name + after;
    let cut = trimmed_end(all);
    law_trimmed_end_loses_white_space_alone(all);
    let n = cut.len() as int;
    if name.len() > 0 {
        let last = before.len() + name.len() - 1;
        assert(all[last] == name.last());
        assert(n > last) by {
            if n <= last {
                assert(is_space(all[last]));
            }
        }
        if n > last + 1 {
            assert(cut.last() == all[n - 1]);
            assert(all[n - 1] == after[n - 2 - last]);
        }
        assert(n == last + 1);
        assert(cut =~= before + name);
        law_trimmed_start_loses_white_space_alone(cut);
        let tty = trimmed_start(cut);
        let k = cut.len() - tty.len();
        assert(cut[before.len() as int] == name[0]);
        assert(k <= before.len()) by {
            if k > before.len() {
                assert(is_space(cut[before.len() as int]));
            }
        }
        if k < before.len() {
            assert(tty[0] == cut[k]);
            assert(cut[k] == before[k]);
        }
        assert(tty =~= name);
    } else {
        if n > 0 {
            assert(cut.last() == all[n - 1]);
            if n - 1 < before.len() {
                assert(all[n - 1] == before[n - 1]);
            } else {
                assert(all[n - 1] == after[n - 1 - before.len()]);
            }
        }
        law_trimmed_start_loses_white_space_alone(cut);
    }
}

proof fn lemma_after_line(h: Seq<char>, rest: Seq<char>, i: int)
    requires
        !h.contains('\n'),
        0 <= i <= h.len(),
    ensures
        after_line(h.push('\n') + rest, i) == rest,
    decreases h.len() - i,
{
    let all = h.push('\n') + rest;
    if i < h.len() {
        assert(all[i] == h[i]);
        assert(h.contains(h[i]));
        lemma_after_line(h, rest, i + 1);
    } else {
        assert(all[i] == '\n');
        assert(all.skip(i + 1) =~= rest);
    }
}

proof fn lemma_foreground_behind(line: Seq<char>, lines: Seq<Seq<char>>, i: int)
    requires
        0 <= i <= lines.len(),
    ensures
        foreground_from(seq![line] + lines, i + 1) == foreground_from(lines, i),
    decreases lines.len() - i,
{
    let all = seq![line] + lines;
    if i < lines.len() {
        assert(all[i + 1] == lines[i]);
        lemma_foreground_behind(line, lines, i + 1);
    }
}

/// The first line is a heading and does not count. The process that is found is the
/// first of those listed whose state has a plus sign and that is not just a shell:
/// its words are the state, the command and the arguments.
pub proof fn law_first_foreground_process_is_found(
    heading: Seq<char>,
    line: Seq<char>,
    rest: Seq<char>,
)
    requires
        !heading.contains('\n'),
        !line.contains('\n'),
    ensures
        ({
            let words = pieces(line, Separator::Space);
            let found = words.len() >= 2 && words[0].contains('+') && !is_shell(
                program_name(words[1]),
            );
            let listed = heading.push('\n') + (line.push('\n') + rest);
            &&& found ==> listed_foreground(listed) == Some(words)
            &&& !found ==> listed_foreground(listed) == listed_foreground(
                heading.push('\n') + rest,
            )
            &&& listed_foreground(heading.push('\n') + Seq::<char>::empty()) is None
        }),
{
    let more = line.push('\n') + rest;
    lemma_after_line(heading, more, 0);
    lemma_after_line(heading, rest, 0);
    lemma_after_line(heading, Seq::empty(), 0);
    law_pieces_are_what_is_between_separators(line, '\n', rest, Separator::LineEnd);
    law_pieces_are_what_is_between_separators(Seq::empty(), '\n', Seq::empty(), Separator::LineEnd);
    let behind = pieces(rest, Separator::LineEnd);
    if line.len() > 0 {
        assert forall|i: int| 0 <= i < line.len() implies !Separator::LineEnd.is(
            #[trigger] line[i],
        ) by {
            assert(line.contains(line[i]));
        }
        let all = seq![line] + behind;
        assert(pieces(more, Separator::LineEnd) == all);
        assert(all[0] == line);
        lemma_foreground_behind(line, behind, 0);
    } else {
        assert(pieces(line, Separator::LineEnd) + behind =~= behind);
        law_pieces_are_what_is_between_separators(line, ' ', Seq::empty(), Separator::Space);
        assert(pieces(line, Separator::Space).len() == 0);
    }
}

/// The shells that are known by name.
pub proof fn law_common_shells_are_known(name: Seq<char>)
    ensures
        is_shell(name) <==> name == "bash"@ || name == "zsh"@ || name == "sh"@ || name == "fish"@
            || name == "dash"@,
{
}

/// What drops the history is ESC, a bracket, the digit three and J.
pub proof fn law_history_is_dropped_by_its_sequence(before: Seq<u8>, after: Seq<u8>)
    ensures
        clears_history(before + seq![0x1bu8, 0x5b, 0x33, 0x4a] + after),
        clears_at(before + seq![0x1bu8, 0x5b, 0x33, 0x4a] + after, before.len() as int + 4),
{
    let all = before + seq![0x1bu8, 0x5b, 0x33, 0x4a] + after;
    let end = before.len() as int + 4;
    assert(all.subrange(end - 4, end) =~= clear_sequence());
    assert(clears_at(all, end));
}

/// The name of a program is the last part of its path; a part that stands for the same
/// directory does not count, and one that stands for the directory above names no
/// program.
pub proof fn law_program_is_the_last_part(parts: Seq<Seq<char>>, name: Seq<char>)
    requires
        name != seq!['.'],
        name != seq!['.', '.'],
    ensures
        last_part(parts.push(name)) == name,
        last_part(parts.push(name).push(seq!['.'])) == name,
        last_part(parts.push(seq!['.', '.'])).len() == 0,
        last_part(parts.push(seq!['.', '.']).push(seq!['.'])).len() == 0,
        last_part(parts.push(seq!['.'])) == last_part(parts),
{
    assert(seq!['.', '.'].len() == 2 && seq!['.'].len() == 1);
    assert(parts.push(name).push(seq!['.']).drop_last() =~= parts.push(name));
    assert(parts.push(seq!['.', '.']).push(seq!['.']).drop_last() =~= parts.push(seq!['.', '.']));
    assert(parts.push(seq!['.']).drop_last() =~= parts);
    reveal_with_fuel(last_part, 2);
}

/// What runs in the foreground is told with all its arguments: the command is the second
/// word of its line, and every word behind it is an argument, in its place.
pub proof fn law_foreground_command_has_its_arguments(
    f: Option<ForegroundCommand>,
    words: Seq<Seq<char>>,
)
    requires
        words.len() >= 2,
        is_command_of(f, Some(words)),
    ensures
        f is Some,
        f->0.command@ == words[1],
        f->0.args@.len() == words.len() - 2,
        forall|i: int| 0 <= i < words.len() - 2 ==> (#[trigger] f->0.args@[i])@ == words[i + 2],
{
    assert(texts(f->0.args@).len() == f->0.args@.len());
    assert forall|i: int| 0 <= i < words.len() - 2 implies (#[trigger] f->0.args@[i])@ == words[i
        + 2] by {
        assert(texts(f->0.args@)[i] == f->0.args@[i]@);
        assert(words.skip(2)[i] == words[i + 2]);
    }
}

} // verus!
