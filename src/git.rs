//! Plain records of what the repository reports.
use vstd::prelude::*;
use crate::text::{
    chars_of, contains, contains_text, decimal, lower_of, lowercase, push_all, push_decimal,
};
use crate::stream::split_lines;

verus! {

/// The working tree's changes, by kind.
#[derive(Debug, Clone, PartialEq)]
pub struct GitStatus {
    pub is_clean: bool,
    pub modified_files: Vec<String>,
    pub new_files: Vec<String>,
    pub deleted_files: Vec<String>,
    pub renamed_files: Vec<String>,
}

impl GitStatus {
    /// The number of changed files of every kind.
    pub fn total_changes(&self) -> (r: usize)
        requires
            self.modified_files@.len() + self.new_files@.len() + self.deleted_files@.len()
                + self.renamed_files@.len() <= usize::MAX,
        ensures
            r == self.modified_files@.len() + self.new_files@.len() + self.deleted_files@.len()
                + self.renamed_files@.len(),
    {
        self.modified_files.len() + self.new_files.len() + self.deleted_files.len()
            + self.renamed_files.len()
    }
}

/// The checked-out branch.
#[derive(Debug, Clone, PartialEq)]
pub struct BranchInfo {
    pub name: Option<String>,
    pub is_detached: bool,
    pub tracking_info: Option<TrackingInfo>,
}

/// How a branch stands against its upstream.
#[derive(Debug, Clone, PartialEq)]
pub struct TrackingInfo {
    pub upstream: String,
    pub ahead: usize,
    pub behind: usize,
}

/// A commit's time, in the local time zone, as the fields the logic reads.
#[derive(Debug, Clone, Copy, PartialEq)]
pub struct CommitTime {
    /// Seconds since the Unix epoch.
    pub seconds: i64,
    pub year: i32,
    pub month: u32,
    pub day: u32,
    pub hour: u32,
    pub minute: u32,
}

/// One commit of the history.
#[derive(Debug, Clone, PartialEq)]
pub struct CommitInfo {
    pub id: String,
    pub short_id: String,
    pub author: String,
    pub email: String,
    pub time: CommitTime,
    pub summary: String,
    pub message: String,
}

/// Which commits a log shows.
#[derive(Debug, Clone, PartialEq)]
pub struct LogOptions {
    pub count: usize,
    pub grep: Option<String>,
    pub author: Option<String>,
    pub since: Option<String>,
    pub until: Option<String>,
}

/// `n` in decimal, zero-padded on the left to at least `width` digits.
pub open spec fn padded(n: nat, width: nat) -> Seq<char>
    decreases width,
{
    if decimal(n).len() >= width || width == 0 {
        decimal(n)
    } else {
        seq!['0'] + padded(n, (width - 1) as nat)
    }
}

/// A year as `%Y` writes it: four digits at least, with a sign outside 0..=9999.
pub open spec fn year_text(y: int) -> Seq<char> {
    if 0 <= y <= 9999 {
        padded(y as nat, 4)
    } else if y < 0 {
        seq!['-'] + padded((-y) as nat, 4)
    } else {
        seq!['+'] + padded(y as nat, 4)
    }
}

/// A date as `%Y-%m-%d` writes it.
pub open spec fn date_text(t: CommitTime) -> Seq<char> {
    year_text(t.year as int) + seq!['-'] + padded(t.month as nat, 2) + seq!['-'] + padded(
        t.day as nat,
        2,
    )
}

/// A date and minute as `%Y-%m-%d %H:%M` writes it.
pub open spec fn minute_text(t: CommitTime) -> Seq<char> {
    date_text(t) + seq![' '] + padded(t.hour as nat, 2) + seq![':'] + padded(t.minute as nat, 2)
}

proof fn lemma_decimal_len(n: nat)
    ensures
        decimal(n).len() >= 1,
        n < 10 ==> decimal(n).len() == 1,
        10 <= n < 100 ==> decimal(n).len() == 2,
        100 <= n < 1000 ==> decimal(n).len() == 3,
        1000 <= n ==> decimal(n).len() >= 4,
    decreases n,
{
    if n >= 10 {
        lemma_decimal_len(n / 10);
    }
}

/// Appends `n` zero-padded to `width` digits, `width` being at most four.
fn push_padded(s: &mut String, n: u64, width: u64)
    requires
        width <= 4,
    ensures
        final(s)@ == old(s)@ + padded(n as nat, width as nat),
    decreases width,
{
    proof {
        lemma_decimal_len(n as nat);
    }
    let digits: u64 = if n < 10 {
        1
    } else if n < 100 {
        2
    } else if n < 1000 {
        3
    } else {
        4
    };
    if digits >= width || width == 0 {
        push_decimal(s, n);
    } else {
        s.push('0');
        push_padded(s, n, width - 1);
        assert(final(s)@ =~= old(s)@ + padded(n as nat, width as nat));
    }
}

impl CommitTime {
    /// Appends the date as `%Y-%m-%d` writes it.
    pub fn push_date(&self, s: &mut String)
        ensures
            final(s)@ == old(s)@ + date_text(*self),
    {
        let y = self.year;
        if 0 <= y && y <= 9999 {
            push_padded(s, y as u64, 4);
        } else if y < 0 {
            s.push('-');
            let a: i64 = -(y as i64);
            push_padded(s, a as u64, 4);
        } else {
            s.push('+');
            push_padded(s, y as u64, 4);
        }
        s.push('-');
        push_padded(s, self.month as u64, 2);
        s.push('-');
        push_padded(s, self.day as u64, 2);
        assert(final(s)@ =~= old(s)@ + date_text(*self));
    }

    /// The date and minute as `%Y-%m-%d %H:%M` writes them.
    pub fn format_minute(&self) -> (r: String)
        ensures
            r@ == minute_text(*self),
    {
        let mut s = String::new();
        self.push_date(&mut s);
        s.push(' ');
        push_padded(&mut s, self.hour as u64, 2);
        s.push(':');
        push_padded(&mut s, self.minute as u64, 2);
        assert(s@ =~= minute_text(*self));
        s
    }
}

/// Whether a commit passes the log's filters: its message holds the search
/// text and its author name or e-mail the author filter, both compared in
/// lower case, and its time lies within the bounds (in seconds, inclusive).
pub open spec fn passes(c: CommitInfo, o: LogOptions, since: Option<i64>, until: Option<i64>) -> bool {
    &&& (o.grep matches Some(g) ==> contains(lower_of(c.message@), lower_of(g@)))
    &&& (o.author matches Some(a) ==> contains(lower_of(c.author@), lower_of(a@)) || contains(
        lower_of(c.email@),
        lower_of(a@),
    ))
    &&& (since matches Some(s) ==> c.time.seconds >= s)
    &&& (until matches Some(u) ==> c.time.seconds <= u)
}

/// The first `o.count` commits of the walk that pass the filters, in walk order.
pub open spec fn selection(walk: Seq<CommitInfo>, o: LogOptions, since: Option<i64>, until: Option<i64>) -> Seq<CommitInfo>
    decreases walk.len(),
{
    if walk.len() == 0 {
        Seq::empty()
    } else {
        let p = selection(walk.drop_last(), o, since, until);
        if p.len() < o.count && passes(walk.last(), o, since, until) {
            p.push(walk.last())
        } else {
            p
        }
    }
}

fn passes_exec(c: &CommitInfo, o: &LogOptions, since: Option<i64>, until: Option<i64>) -> (r: bool)
    ensures
        r == passes(*c, *o, since, until),
{
    if let Some(g) = &o.grep {
        let needle = lowercase(g.as_str());
        let hay = lowercase(c.message.as_str());
        if !contains_text(hay.as_str(), needle.as_str()) {
            return false;
        }
    }
    if let Some(a) = &o.author {
        let needle = lowercase(a.as_str());
        let name = lowercase(c.author.as_str());
        let email = lowercase(c.email.as_str());
        if !contains_text(name.as_str(), needle.as_str()) && !contains_text(email.as_str(), needle.as_str()) {
            return false;
        }
    }
    if let Some(s) = since {
        if c.time.seconds < s {
            return false;
        }
    }
    if let Some(u) = until {
        if c.time.seconds > u {
            return false;
        }
    }
    true
}

/// Picks the commits a log shows from the history walk: the first
/// `options.count` that pass the filters. `since` and `until` are the bounds
/// the caller read from the options, in seconds; `None` sets no bound.
pub fn select_commits(walk: Vec<CommitInfo>, options: &LogOptions, since: Option<i64>, until: Option<i64>) -> (r: Vec<CommitInfo>)
    ensures
        r@ == selection(walk@, *options, since, until),
{
    let ghost w = walk@;
    let mut r: Vec<CommitInfo> = Vec::new();
    for c in it: walk
        invariant
            it.seq() == w,
            r@ == selection(w.take(it.index() as int), *options, since, until),
    {
        let ghost i = it.index();
        proof {
            assert(w.take(i + 1).drop_last() =~= w.take(i as int));
        }
        if r.len() < options.count && passes_exec(&c, options, since, until) {
            r.push(c);
        }
    }
    assert(w.take(w.len() as int) =~= w);
    r
}

/// The staged and unstaged diffs under their headings, the staged first; an
/// empty diff is left out, and a blank line separates the two.
pub open spec fn combined(staged: Seq<char>, unstaged: Seq<char>) -> Seq<char> {
    let first = if staged.len() > 0 {
        "=== STAGED CHANGES ===\n\n"@ + staged
    } else {
        Seq::empty()
    };
    if unstaged.len() > 0 {
        first + (if first.len() > 0 {
            "\n\n"@
        } else {
            Seq::empty()
        }) + "=== UNSTAGED CHANGES ===\n\n"@ + unstaged
    } else {
        first
    }
}

/// Puts the staged and unstaged diffs together for display and for the prompt.
pub fn combine_diffs(staged: &str, unstaged: &str) -> (r: String)
    ensures
        r@ == combined(staged@, unstaged@),
{
    let mut combined_text = String::new();
    if !staged.is_empty() {
        push_all(&mut combined_text, "=== STAGED CHANGES ===\n\n");
        push_all(&mut combined_text, staged);
    }
    if !unstaged.is_empty() {
        if !combined_text.as_str().is_empty() {
            push_all(&mut combined_text, "\n\n");
        }
        push_all(&mut combined_text, "=== UNSTAGED CHANGES ===\n\n");
        push_all(&mut combined_text, unstaged);
    }
    proof {
        reveal_strlit("=== STAGED CHANGES ===\n\n");
    }
    assert(combined_text@ =~= combined(staged@, unstaged@));
    combined_text
}

/// How many lines of `lines` open with `c`.
pub open spec fn count_opening(lines: Seq<Seq<char>>, c: char) -> nat
    decreases lines.len(),
{
    if lines.len() == 0 {
        0
    } else {
        (if lines[0].len() > 0 && lines[0][0] == c {
            1nat
        } else {
            0nat
        }) + count_opening(lines.drop_first(), c)
    }
}

/// The numbers of added and removed lines of a diff: the lines that open
/// with `+` and with `-`.
pub fn count_changed_lines(diff: &str) -> (r: (usize, usize))
    ensures
        r.0 == count_opening(split_lines(diff@), '+'),
        r.1 == count_opening(split_lines(diff@), '-'),
{
    let cs = chars_of(diff);
    let ghost s = cs@;
    let n = cs.len();
    let mut added: usize = 0;
    let mut removed: usize = 0;
    let mut ls: usize = 0;
    let mut i: usize = 0;
    assert(s.skip(0) =~= s);
    while i < n
        invariant
            s == cs@,
            n == s.len(),
            ls <= i <= n,
            forall|k: int| ls <= k < i ==> s[k] != '\n',
            added + removed <= ls,
            added + count_opening(split_lines(s.skip(ls as int)), '+') == count_opening(split_lines(s), '+'),
            removed + count_opening(split_lines(s.skip(ls as int)), '-') == count_opening(split_lines(s), '-'),
        decreases n - i,
    {
        if cs[i] == '\n' {
            proof {
                let rest = s.skip(ls as int);
                assert(crate::stream::first_newline(rest, i - ls)) by {
                    assert forall|k: int| 0 <= k < i - ls implies rest[k] != '\n' by {
                        assert(rest[k] == s[ls + k]);
                    }
                }
                crate::stream::lemma_split_at_newline(rest, i - ls);
                assert(rest.take(i - ls) =~= s.subrange(ls as int, i as int));
                assert(rest.skip(i - ls + 1) =~= s.skip(i + 1));
                let lines = split_lines(rest);
                assert(lines[0] == s.subrange(ls as int, i as int));
                assert(lines.drop_first() =~= split_lines(s.skip(i + 1)));
            }
            if ls < i && cs[ls] == '+' {
                added = added + 1;
            } else if ls < i && cs[ls] == '-' {
                removed = removed + 1;
            }
            ls = i + 1;
        }
        i = i + 1;
    }
    proof {
        let rest = s.skip(ls as int);
        assert forall|k: int| 0 <= k < rest.len() implies rest[k] != '\n' by {
            assert(rest[k] == s[ls + k]);
        }
        crate::stream::lemma_split_no_newline(rest);
        assert(rest =~= s.subrange(ls as int, n as int));
        let lines = split_lines(rest);
        assert(lines.drop_first().len() == 0);
        assert(lines[0] == s.subrange(ls as int, n as int));
        assert(count_opening(lines.drop_first(), '+') == 0);
        assert(count_opening(lines.drop_first(), '-') == 0);
        if ls < n {
            assert(lines[0][0] == s[ls as int]);
        }
        assert(count_opening(lines, '+') == if ls < n && s[ls as int] == '+' { 1nat } else { 0nat });
        assert(count_opening(lines, '-') == if ls < n && s[ls as int] == '-' { 1nat } else { 0nat });
    }
    if ls < n && cs[ls] == '+' {
        added = added + 1;
    } else if ls < n && cs[ls] == '-' {
        removed = removed + 1;
    }
    (added, removed)
}


/// What the repository reports of one path, index and working tree together.
#[derive(Debug, Clone, Copy, PartialEq)]
pub struct EntryState {
    pub modified: bool,
    pub new: bool,
    pub deleted: bool,
    pub renamed: bool,
}

/// The kind a path counts as: modified before new before deleted before
/// renamed; a path of none of these kinds is not listed.
pub open spec fn kind_of(e: EntryState) -> int {
    if e.modified {
        0
    } else if e.new {
        1
    } else if e.deleted {
        2
    } else if e.renamed {
        3
    } else {
        4
    }
}

/// The paths of the entries of kind `k`, in order.
pub open spec fn paths_of_kind(entries: Seq<(String, EntryState)>, k: int) -> Seq<Seq<char>>
    decreases entries.len(),
{
    if entries.len() == 0 {
        Seq::empty()
    } else {
        let p = paths_of_kind(entries.drop_last(), k);
        if kind_of(entries.last().1) == k {
            p.push(entries.last().0@)
        } else {
            p
        }
    }
}

impl GitStatus {
    /// Sorts the reported paths by kind; the tree is clean when nothing is reported.
    pub fn from_entries(entries: Vec<(String, EntryState)>) -> (r: GitStatus)
        ensures
            r.is_clean == (entries@.len() == 0),
            crate::schema::texts(r.modified_files@) == paths_of_kind(entries@, 0),
            crate::schema::texts(r.new_files@) == paths_of_kind(entries@, 1),
            crate::schema::texts(r.deleted_files@) == paths_of_kind(entries@, 2),
            crate::schema::texts(r.renamed_files@) == paths_of_kind(entries@, 3),
    {
        let ghost w = entries@;
        let is_clean = entries.len() == 0;
        let mut modified_files: Vec<String> = Vec::new();
        let mut new_files: Vec<String> = Vec::new();
        let mut deleted_files: Vec<String> = Vec::new();
        let mut renamed_files: Vec<String> = Vec::new();
        for entry in it: entries
            invariant
                it.seq() == w,
                crate::schema::texts(modified_files@) == paths_of_kind(w.take(it.index() as int), 0),
                crate::schema::texts(new_files@) == paths_of_kind(w.take(it.index() as int), 1),
                crate::schema::texts(deleted_files@) == paths_of_kind(w.take(it.index() as int), 2),
                crate::schema::texts(renamed_files@) == paths_of_kind(w.take(it.index() as int), 3),
        {
            let ghost i = it.index();
            proof {
                assert(w.take(i + 1).drop_last() =~= w.take(i as int));
                assert(w.take(i + 1).last() == entry);
            }
            let (path, state) = entry;
            let ghost p = path@;
            if state.modified {
                let ghost before = modified_files@;
                modified_files.push(path);
                assert(crate::schema::texts(modified_files@) =~= crate::schema::texts(before).push(p));
            } else if state.new {
                let ghost before = new_files@;
                new_files.push(path);
                assert(crate::schema::texts(new_files@) =~= crate::schema::texts(before).push(p));
            } else if state.deleted {
                let ghost before = deleted_files@;
                deleted_files.push(path);
                assert(crate::schema::texts(deleted_files@) =~= crate::schema::texts(before).push(p));
            } else if state.renamed {
                let ghost before = renamed_files@;
                renamed_files.push(path);
                assert(crate::schema::texts(renamed_files@) =~= crate::schema::texts(before).push(p));
            }
        }
        assert(w.take(w.len() as int) =~= w);
        GitStatus { is_clean, modified_files, new_files, deleted_files, renamed_files }
    }
}

} // verus!
