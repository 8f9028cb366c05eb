use vstd::prelude::*;

use crate::text::{
    chars_of, contains_chars, is_space, lines_of, lower_of, lowercase, occurs_at_pos, seq_contains,
    seq_ends_with, seq_starts_with, slice_chars, split_lines, string_of, white_space,
};

verus! {

/// How many rounds of killing the guard performs before it gives up.
pub const MAX_KILL_ROUNDS: u32 = 2;

/// The operating system whose process listing is read.
#[derive(Clone, Copy, Debug, PartialEq, Eq, Structural)]
pub enum Platform {
    Windows,
    MacOs,
    Linux,
    Other,
}

/// Finds and stops the running instances of the target application.
#[derive(Clone, Copy, Debug)]
pub struct ProcessManager {
    pub platform: Platform,
}

/// What the guard does next while it stops the target application.
#[derive(Debug)]
pub enum KillAction {
    /// No instance is left.
    Done,
    /// Kill these process ids, wait, then list the processes again.
    Kill(Vec<String>),
    /// Instances are still running after the last round.
    GiveUp,
}

/// What a caller must do before it touches the target's files.
#[derive(Clone, Copy, Debug, PartialEq, Eq, Structural)]
pub enum Quiescence {
    /// The target is not running: go on.
    Proceed,
    /// Stop the target first, then go on.
    Terminate,
    /// The target is running and stopping it was not asked for.
    Refuse,
}

pub open spec fn pattern_matches(line: Seq<char>, pat: Seq<char>) -> bool {
    if pat.len() >= 2 && pat[0] == '*' && pat.last() == '*' {
        seq_contains(line, pat.subrange(1, pat.len() - 1))
    } else if pat.len() >= 1 && pat[0] == '*' {
        seq_ends_with(line, pat.subrange(1, pat.len() as int))
    } else if pat.len() >= 1 && pat.last() == '*' {
        seq_starts_with(line, pat.subrange(0, pat.len() - 1))
    } else {
        line == pat
    }
}

/// A pattern whose slicing is defined: a lone `*` is not one.
pub open spec fn valid_pattern(pat: Seq<char>) -> bool {
    !(pat.len() == 1 && pat[0] == '*')
}

pub open spec fn skip_space(s: Seq<char>) -> Seq<char>
    decreases s.len(),
{
    if s.len() > 0 && white_space(s[0]) {
        skip_space(s.drop_first())
    } else {
        s
    }
}

pub open spec fn take_word(s: Seq<char>) -> Seq<char>
    decreases s.len(),
{
    if s.len() > 0 && !white_space(s[0]) {
        seq![s[0]] + take_word(s.drop_first())
    } else {
        Seq::empty()
    }
}

pub open spec fn after_first(s: Seq<char>, c: char) -> Option<Seq<char>>
    decreases s.len(),
{
    if s.len() == 0 {
        None
    } else if s[0] == c {
        Some(s.drop_first())
    } else {
        after_first(s.drop_first(), c)
    }
}

pub open spec fn until_char(s: Seq<char>, c: char) -> Seq<char>
    decreases s.len(),
{
    if s.len() == 0 || s[0] == c {
        Seq::empty()
    } else {
        seq![s[0]] + until_char(s.drop_first(), c)
    }
}

pub open spec fn trim_front(s: Seq<char>, c: char) -> Seq<char>
    decreases s.len(),
{
    if s.len() > 0 && s[0] == c {
        trim_front(s.drop_first(), c)
    } else {
        s
    }
}

pub open spec fn trim_back(s: Seq<char>, c: char) -> Seq<char>
    decreases s.len(),
{
    if s.len() > 0 && s.last() == c {
        trim_back(s.drop_last(), c)
    } else {
        s
    }
}

/// The process id in one line of the platform's listing.
pub open spec fn pid_of(p: Platform, line: Seq<char>) -> Option<Seq<char>> {
    match p {
        Platform::Windows => match after_first(line, ',') {
            Some(rest) => Some(trim_back(trim_front(until_char(rest, ','), '"'), '"')),
            None => None,
        },
        Platform::MacOs | Platform::Linux => {
            let t = skip_space(line);
            if t.len() == 0 {
                None
            } else {
                Some(take_word(t))
            }
        },
        Platform::Other => None,
    }
}

/// The lowercase line names the target application.
pub open spec fn names_target(lower: Seq<char>) -> bool {
    pattern_matches(lower, "cursor.exe"@) || pattern_matches(lower, "cursor "@) || pattern_matches(
        lower,
        "cursor"@,
    ) || pattern_matches(lower, "*cursor*"@)
}

pub open spec fn target_pid(p: Platform, line: Seq<char>, lower: Seq<char>) -> Option<Seq<char>> {
    if names_target(lower) {
        pid_of(p, line)
    } else {
        None
    }
}

/// The line belongs to this tool itself.
pub open spec fn is_own_line(lower: Seq<char>) -> bool {
    seq_contains(lower, "cursor-pool"@)
}

/// The ids of the target's processes among the given lines, in order.
pub open spec fn target_pids(p: Platform, lines: Seq<Seq<char>>) -> Seq<Seq<char>>
    decreases lines.len(),
{
    if lines.len() == 0 {
        Seq::empty()
    } else {
        let rest = target_pids(p, lines.drop_last());
        let l = lines.last();
        if is_own_line(lower_of(l)) {
            rest
        } else {
            match target_pid(p, l, lower_of(l)) {
                Some(pid) => rest.push(pid),
                None => rest,
            }
        }
    }
}

/// The ids of this tool's own processes among the given lines, in order.
pub open spec fn own_pids(p: Platform, lines: Seq<Seq<char>>) -> Seq<Seq<char>>
    decreases lines.len(),
{
    if lines.len() == 0 {
        Seq::empty()
    } else {
        let rest = own_pids(p, lines.drop_last());
        let l = lines.last();
        if is_own_line(lower_of(l)) {
            match pid_of(p, l) {
                Some(pid) => rest.push(pid),
                None => rest,
            }
        } else {
            rest
        }
    }
}

pub open spec fn opt_view(o: Option<String>) -> Option<Seq<char>> {
    match o {
        Some(s) => Some(s@),
        None => None,
    }
}

pub open spec fn views(v: Seq<String>) -> Seq<Seq<char>> {
    v.map_values(|s: String| s@)
}

pub open spec fn quiescence(force_kill: bool, running: bool) -> Quiescence {
    if !running {
        Quiescence::Proceed
    } else if force_kill {
        Quiescence::Terminate
    } else {
        Quiescence::Refuse
    }
}

fn same_chars(a: &Vec<char>, b: &Vec<char>) -> (r: bool)
    ensures
        r == (a@ == b@),
{
    if a.len() != b.len() {
        return false;
    }
    let r = occurs_at_pos(a, b, 0);
    proof {
        if r {
            assert(a@ =~= a@.subrange(0, b@.len() as int));
        } else {
            assert(a@.subrange(0, b@.len() as int) =~= a@);
        }
    }
    r
}

fn skip_space_from(s: &Vec<char>, start: usize) -> (r: usize)
    requires
        start <= s.len(),
    ensures
        start <= r <= s.len(),
        skip_space(s@.subrange(start as int, s.len() as int)) == s@.subrange(r as int, s.len() as int),
{
    let mut i = start;
    while i < s.len() && is_space(s[i])
        invariant
            start <= i <= s.len(),
            skip_space(s@.subrange(start as int, s.len() as int)) == skip_space(s@.subrange(i as int, s.len() as int)),
        decreases s.len() - i,
    {
        assert(s@.subrange(i as int, s.len() as int).drop_first() =~= s@.subrange(i + 1, s.len() as int));
        i = i + 1;
    }
    i
}

fn word_end(s: &Vec<char>, start: usize) -> (r: usize)
    requires
        start <= s.len(),
    ensures
        start <= r <= s.len(),
        take_word(s@.subrange(start as int, s.len() as int)) == s@.subrange(start as int, r as int),
{
    let mut i = start;
    while i < s.len() && !is_space(s[i])
        invariant
            start <= i <= s.len(),
            take_word(s@.subrange(start as int, s.len() as int)) == s@.subrange(start as int, i as int)
                + take_word(s@.subrange(i as int, s.len() as int)),
        decreases s.len() - i,
    {
        assert(s@.subrange(i as int, s.len() as int).drop_first() =~= s@.subrange(i + 1, s.len() as int));
        assert(s@.subrange(start as int, i as int) + seq![s@[i as int]] =~= s@.subrange(start as int, i + 1));
        i = i + 1;
    }
    assert(s@.subrange(start as int, i as int) + Seq::<char>::empty() =~= s@.subrange(start as int, i as int));
    i
}

fn char_index_from(s: &Vec<char>, start: usize, c: char) -> (r: usize)
    requires
        start <= s.len(),
    ensures
        start <= r <= s.len(),
        r < s.len() ==> s@[r as int] == c,
        until_char(s@.subrange(start as int, s.len() as int), c) == s@.subrange(start as int, r as int),
        after_first(s@.subrange(start as int, s.len() as int), c) == if r < s.len() {
            Some(s@.subrange(r + 1, s.len() as int))
        } else {
            None::<Seq<char>>
        },
{
    let mut i = start;
    while i < s.len() && s[i] != c
        invariant
            start <= i <= s.len(),
            until_char(s@.subrange(start as int, s.len() as int), c) == s@.subrange(start as int, i as int)
                + until_char(s@.subrange(i as int, s.len() as int), c),
            after_first(s@.subrange(start as int, s.len() as int), c) == after_first(s@.subrange(i as int, s.len() as int), c),
        decreases s.len() - i,
    {
        assert(s@.subrange(i as int, s.len() as int).drop_first() =~= s@.subrange(i + 1, s.len() as int));
        assert(s@.subrange(start as int, i as int) + seq![s@[i as int]] =~= s@.subrange(start as int, i + 1));
        i = i + 1;
    }
    assert(s@.subrange(start as int, i as int) + Seq::<char>::empty() =~= s@.subrange(start as int, i as int));
    if i < s.len() {
        assert(s@.subrange(i as int, s.len() as int).drop_first() =~= s@.subrange(i + 1, s.len() as int));
    }
    i
}

/// `s` with every leading and trailing `c` removed.
fn trim_char(s: &Vec<char>, c: char) -> (r: Vec<char>)
    ensures
        r@ == trim_back(trim_front(s@, c), c),
{
    let n = s.len();
    let mut a: usize = 0;
    assert(s@.subrange(0, n as int) =~= s@);
    while a < n && s[a] == c
        invariant
            n == s.len(),
            a <= n,
            trim_front(s@, c) == trim_front(s@.subrange(a as int, n as int), c),
        decreases n - a,
    {
        assert(s@.subrange(a as int, n as int).drop_first() =~= s@.subrange(a + 1, n as int));
        a = a + 1;
    }
    assert(s@.subrange(0, n as int) =~= s@);
    let mut b: usize = n;
    while b > a && s[b - 1] == c
        invariant
            n == s.len(),
            a <= b <= n,
            trim_back(trim_front(s@, c), c) == trim_back(s@.subrange(a as int, b as int), c),
        decreases b,
    {
        assert(s@.subrange(a as int, b as int).drop_last() =~= s@.subrange(a as int, b - 1));
        b = b - 1;
    }
    slice_chars(s, a, b)
}

impl Platform {
    /// The platform that `std::env::consts::OS` names.
    pub fn from_os_name(name: &str) -> (r: Platform)
        ensures
            r == (if name@ == "windows"@ {
                Platform::Windows
            } else if name@ == "macos"@ {
                Platform::MacOs
            } else if name@ == "linux"@ {
                Platform::Linux
            } else {
                Platform::Other
            }),
    {
        let n = chars_of(name);
        if same_chars(&n, &chars_of("windows")) {
            Platform::Windows
        } else if same_chars(&n, &chars_of("macos")) {
            Platform::MacOs
        } else if same_chars(&n, &chars_of("linux")) {
            Platform::Linux
        } else {
            Platform::Other
        }
    }
}

impl ProcessManager {
    /// A manager that knows no platform: it finds no process id in any listing.
    pub fn new() -> (r: ProcessManager)
        ensures
            r.platform == Platform::Other,
    {
        ProcessManager { platform: Platform::Other }
    }

    /// A manager that reads the listing format of `platform`.
    pub fn for_platform(platform: Platform) -> (r: ProcessManager)
        ensures
            r.platform == platform,
    {
        ProcessManager { platform }
    }

    /// Matches a line against a pattern: `*x*` contains, `*x` ends with, `x*` starts with,
    /// anything else equality.
    pub fn match_pattern(&self, line: &str, pattern: &str) -> (r: bool)
        requires
            valid_pattern(pattern@),
        ensures
            r == pattern_matches(line@, pattern@),
    {
        let l = chars_of(line);
        let p = chars_of(pattern);
        let n = p.len();
        if n >= 2 && p[0] == '*' && p[n - 1] == '*' {
            let search = slice_chars(&p, 1, n - 1);
            contains_chars(&l, &search)
        } else if n >= 1 && p[0] == '*' {
            let suffix = slice_chars(&p, 1, n);
            if suffix.len() > l.len() {
                false
            } else {
                occurs_at_pos(&l, &suffix, l.len() - suffix.len())
            }
        } else if n >= 1 && p[n - 1] == '*' {
            let prefix = slice_chars(&p, 0, n - 1);
            occurs_at_pos(&l, &prefix, 0)
        } else {
            same_chars(&l, &p)
        }
    }

    /// The process id in one line of the listing: the second comma-separated field without
    /// quotes on Windows, the first word elsewhere.
    pub fn extract_pid(&self, line: &str) -> (r: Option<String>)
        ensures
            opt_view(r) == pid_of(self.platform, line@),
    {
        let s = chars_of(line);
        match self.platform {
            Platform::Windows => {
                let comma = char_index_from(&s, 0, ',');
                assert(s@.subrange(0, s.len() as int) =~= s@);
                if comma < s.len() {
                    let end = char_index_from(&s, comma + 1, ',');
                    let field = slice_chars(&s, comma + 1, end);
                    let trimmed = trim_char(&field, '"');
                    Some(string_of(&trimmed))
                } else {
                    None
                }
            },
            Platform::MacOs | Platform::Linux => {
                let start = skip_space_from(&s, 0);
                assert(s@.subrange(0, s.len() as int) =~= s@);
                if start == s.len() {
                    None
                } else {
                    let end = word_end(&s, start);
                    let word = slice_chars(&s, start, end);
                    Some(string_of(&word))
                }
            },
            Platform::Other => None,
        }
    }

    /// The process id of a line that names the target application, given the line and its
    /// lowercase form.
    pub fn find_cursor_process(&self, line: &str, lower_line: &str) -> (r: Option<String>)
        ensures
            opt_view(r) == target_pid(self.platform, line@, lower_line@),
    {
        proof {
            reveal_strlit("cursor.exe");
            reveal_strlit("cursor ");
            reveal_strlit("cursor");
            reveal_strlit("*cursor*");
        }
        if self.match_pattern(lower_line, "cursor.exe") || self.match_pattern(lower_line, "cursor ")
            || self.match_pattern(lower_line, "cursor") || self.match_pattern(
            lower_line,
            "*cursor*",
        ) {
            self.extract_pid(line)
        } else {
            None
        }
    }

    /// The ids of the target's processes in a process listing, skipping this tool's own lines.
    pub fn parse_process_list(&self, output: &str) -> (r: Vec<String>)
        ensures
            views(r@) == target_pids(self.platform, lines_of(output@)),
    {
        let lines = split_lines(&chars_of(output));
        let ghost all = lines_of(output@);
        let own = chars_of("cursor-pool");
        let mut processes: Vec<String> = Vec::new();
        let mut k: usize = 0;
        while k < lines.len()
            invariant
                k <= lines.len(),
                lines.len() == all.len(),
                forall|j: int| 0 <= j < lines.len() ==> #[trigger] lines[j]@ == all[j],
                own@ == "cursor-pool"@,
                views(processes@) == target_pids(self.platform, all.take(k as int)),
            decreases lines.len() - k,
        {
            let line = string_of(&lines[k]);
            let lower = lowercase(line.as_str());
            let lower_chars = chars_of(lower.as_str());
            assert(all.take(k + 1).drop_last() =~= all.take(k as int));
            assert(all.take(k + 1).last() == all[k as int]);
            if !contains_chars(&lower_chars, &own) {
                if let Some(pid) = self.find_cursor_process(line.as_str(), lower.as_str()) {
                    let ghost before = processes@;
                    processes.push(pid);
                    assert(views(processes@) =~= views(before).push(pid@));
                }
            }
            k = k + 1;
        }
        assert(all.take(all.len() as int) =~= all);
        processes
    }

    /// The ids of this tool's own processes in a process listing.
    pub fn parse_cursor_pool_processes(&self, output: &str) -> (r: Vec<String>)
        ensures
            views(r@) == own_pids(self.platform, lines_of(output@)),
    {
        let lines = split_lines(&chars_of(output));
        let ghost all = lines_of(output@);
        let own = chars_of("cursor-pool");
        let mut processes: Vec<String> = Vec::new();
        let mut k: usize = 0;
        while k < lines.len()
            invariant
                k <= lines.len(),
                lines.len() == all.len(),
                forall|j: int| 0 <= j < lines.len() ==> #[trigger] lines[j]@ == all[j],
                own@ == "cursor-pool"@,
                views(processes@) == own_pids(self.platform, all.take(k as int)),
            decreases lines.len() - k,
        {
            let line = string_of(&lines[k]);
            let lower = lowercase(line.as_str());
            let lower_chars = chars_of(lower.as_str());
            assert(all.take(k + 1).drop_last() =~= all.take(k as int));
            assert(all.take(k + 1).last() == all[k as int]);
            if contains_chars(&lower_chars, &own) {
                if let Some(pid) = self.extract_pid(line.as_str()) {
                    let ghost before = processes@;
                    processes.push(pid);
                    assert(views(processes@) =~= views(before).push(pid@));
                }
            }
            k = k + 1;
        }
        assert(all.take(all.len() as int) =~= all);
        processes
    }

    /// Whether the listing shows a running instance of the target application.
    pub fn is_cursor_running(&self, listing: &str) -> (r: bool)
        ensures
            r == (target_pids(self.platform, lines_of(listing@)).len() > 0),
    {
        let pids = self.parse_process_list(listing);
        pids.len() > 0
    }

    /// Whether the listing shows another instance of this tool besides the current one.
    pub fn is_other_cursor_pool_running(&self, listing: &str) -> (r: bool)
        ensures
            r == (own_pids(self.platform, lines_of(listing@)).len() > 1),
    {
        let pids = self.parse_cursor_pool_processes(listing);
        pids.len() > 1
    }

    /// The next step of stopping the target, after `round` rounds of killing, given a fresh
    /// process listing: done when none is left, another round while rounds remain, else give up.
    pub fn next_kill_action(&self, round: u32, listing: &str) -> (r: KillAction)
        ensures
            ({
                let pids = target_pids(self.platform, lines_of(listing@));
                &&& pids.len() == 0 ==> r is Done
                &&& pids.len() > 0 && round < MAX_KILL_ROUNDS ==> (r matches KillAction::Kill(v)
                    && views(v@) == pids)
                &&& pids.len() > 0 && round >= MAX_KILL_ROUNDS ==> r is GiveUp
            }),
    {
        let pids = self.parse_process_list(listing);
        if pids.len() == 0 {
            KillAction::Done
        } else if round < MAX_KILL_ROUNDS {
            KillAction::Kill(pids)
        } else {
            KillAction::GiveUp
        }
    }
}

/// Whether the platform is Windows.
pub fn is_windows(platform: Platform) -> (r: bool)
    ensures
        r == (platform == Platform::Windows),
{
    platform == Platform::Windows
}

/// Decides whether an operation on the target's files may go on: it may when the target is not
/// running; when it is, only after stopping it, and only when that was asked for.
pub fn check_quiescence(force_kill: bool, running: bool) -> (r: Quiescence)
    ensures
        r == quiescence(force_kill, running),
{
    if !running {
        Quiescence::Proceed
    } else if force_kill {
        Quiescence::Terminate
    } else {
        Quiescence::Refuse
    }
}

} // verus!
