//! Reading what the `git` command line prints, and deciding what it means.
use vstd::prelude::*;
use crate::text::{chars_eq, chars_of, contains_chars, contains_seq, has_prefix, lines, parse_i64, parse_i64_or_zero, slice_chars, split_chars, split_lines, split_on, starts_with_chars, string_of, trim, trim_chars};
use crate::branch::Branch;
use crate::clock::{days_between, instant_valid, utc_representable, utc_timestamp_valid, whole_days_between, Instant};

verus! {

/// `s` without every leading `"* "` (as `str::trim_start_matches("* ")`).
pub open spec fn strip_markers(s: Seq<char>) -> Seq<char>
    decreases s.len(),
{
    if s.len() >= 2 && s[0] == '*' && s[1] == ' ' {
        strip_markers(s.skip(2))
    } else {
        s
    }
}

/// The branch name on one line of `git branch --merged` output.
pub open spec fn merged_entry(line: Seq<char>) -> Seq<char> {
    strip_markers(trim(line))
}

/// `"remotes/"`.
pub open spec fn remotes_prefix() -> Seq<char> {
    seq!['r', 'e', 'm', 'o', 't', 'e', 's', '/']
}

/// The names one entry contributes to the merged set: none for an empty
/// entry; the entry itself; and, for `remotes/...`, also the name without
/// that prefix.
pub open spec fn entry_names(e: Seq<char>) -> Set<Seq<char>> {
    if e.len() == 0 {
        Set::empty()
    } else if has_prefix(e, remotes_prefix()) {
        set![e, e.skip(8)]
    } else {
        set![e]
    }
}

/// The merged-branch names given by a sequence of output lines.
pub open spec fn merged_names(ls: Seq<Seq<char>>) -> Set<Seq<char>>
    decreases ls.len(),
{
    if ls.len() == 0 {
        Set::empty()
    } else {
        merged_names(ls.drop_last()).union(entry_names(merged_entry(ls.last())))
    }
}

/// A set of branch names, each held once.
pub struct MergedBranches {
    names: Vec<Vec<char>>,
}

impl MergedBranches {
    /// The names held, as character sequences, in insertion order.
    pub closed spec fn names_seq(&self) -> Seq<Seq<char>> {
        self.names@.map_values(|v: Vec<char>| v@)
    }

    #[verifier::type_invariant]
    closed spec fn inv(&self) -> bool {
        self.names_seq().no_duplicates()
    }
}

impl View for MergedBranches {
    type V = Set<Seq<char>>;

    closed spec fn view(&self) -> Set<Seq<char>> {
        self.names_seq().to_set()
    }
}

impl MergedBranches {
    /// The empty set.
    pub fn new() -> (r: Self)
        ensures
            r@ == Set::<Seq<char>>::empty(),
    {
        let r = MergedBranches { names: Vec::new() };
        assert(r.names_seq() =~= Seq::<Seq<char>>::empty());
        assert(r@ =~= Set::<Seq<char>>::empty());
        r
    }

    /// Position of `name` among the held names, if it is held.
    fn find(&self, name: &Vec<char>) -> (r: Option<usize>)
        ensures
            r is Some ==> r->0 < self.names@.len() && self.names_seq()[r->0 as int] == name@,
            r is None ==> !self@.contains(name@),
    {
        let mut i: usize = 0;
        while i < self.names.len()
            invariant
                i <= self.names@.len(),
                forall|k: int| 0 <= k < i ==> self.names_seq()[k] != name@,
            decreases self.names@.len() - i,
        {
            if chars_eq(&self.names[i], name) {
                return Some(i);
            }
            i = i + 1;
        }
        proof {
            if self@.contains(name@) {
                let k = choose|k: int| 0 <= k < self.names_seq().len() && self.names_seq()[k] == name@;
                assert(self.names_seq()[k] != name@);
            }
        }
        None
    }

    /// Adds `name` to the set.
    pub fn insert(&mut self, name: Vec<char>)
        ensures
            final(self)@ == old(self)@.insert(name@),
    {
        proof { use_type_invariant(&*self); }
        match self.find(&name) {
            Some(_) => {
                assert(old(self)@.insert(name@) =~= old(self)@);
            },
            None => {
                let ghost old_seq = self.names_seq();
                let ghost nm = name@;
                assert(!old_seq.contains(nm));
                let mut names: Vec<Vec<char>> = Vec::new();
                std::mem::swap(&mut names, &mut self.names);
                names.push(name);
                proof {
                    let new_seq = names@.map_values(|v: Vec<char>| v@);
                    assert(new_seq =~= old_seq.push(nm));
                    assert forall|i: int, j: int|
                        0 <= i < new_seq.len() && 0 <= j < new_seq.len() && i != j
                        implies new_seq[i] != new_seq[j] by {
                        if i == old_seq.len() {
                            assert(old_seq.contains(new_seq[j]));
                        } else if j == old_seq.len() {
                            assert(old_seq.contains(new_seq[i]));
                        }
                    }
                }
                self.names = names;
                proof {
                    assert(self.names_seq() =~= old_seq.push(nm));
                    old_seq.lemma_push_to_set_commute(nm);
                }
            },
        }
    }

    /// Whether `name` is in the set.
    pub fn contains(&self, name: &str) -> (r: bool)
        ensures
            r == self@.contains(name@),
    {
        let v = chars_of(name);
        self.find(&v).is_some()
    }

    /// Whether the characters `name` are in the set.
    pub fn contains_chars(&self, name: &Vec<char>) -> (r: bool)
        ensures
            r == self@.contains(name@),
    {
        self.find(name).is_some()
    }

    /// The number of names in the set.
    pub fn len(&self) -> (r: usize)
        ensures
            r == self@.len(),
    {
        proof {
            use_type_invariant(self);
            self.names_seq().unique_seq_to_set();
        }
        self.names.len()
    }

    /// Whether the set is empty.
    pub fn is_empty(&self) -> (r: bool)
        ensures
            r == (self@.len() == 0),
    {
        self.len() == 0
    }
}

} // verus!

verus! {

/// Removes every leading `"* "`.
pub fn strip_markers_chars(s: &Vec<char>) -> (r: Vec<char>)
    ensures
        r@ == strip_markers(s@),
{
    let n = s.len();
    let mut lo: usize = 0;
    assert(s@.subrange(0, n as int) =~= s@);
    while n - lo >= 2 && s[lo] == '*' && s[lo + 1] == ' '
        invariant
            lo <= n == s.len(),
            strip_markers(s@) == strip_markers(s@.subrange(lo as int, n as int)),
        decreases n - lo,
    {
        assert(s@.subrange(lo as int, n as int).skip(2) =~= s@.subrange(lo + 2, n as int));
        lo = lo + 2;
    }
    slice_chars(s, lo, n)
}

/// `"remotes/"` as characters.
pub fn remotes_prefix_chars() -> (r: Vec<char>)
    ensures
        r@ == remotes_prefix(),
{
    let r = vec!['r', 'e', 'm', 'o', 't', 'e', 's', '/'];
    assert(r@ =~= remotes_prefix());
    r
}

/// Parse `git branch --merged` output into a set of branch names.
/// Handles local branches, current branch marker (`*`), and remote refs
/// (inserting both `remotes/origin/foo` and `origin/foo` forms).
pub fn parse_merged_branches(stdout: &str) -> (merged: MergedBranches)
    ensures
        merged@ == merged_names(lines(stdout@)),
{
    let chars = chars_of(stdout);
    let ls = split_lines(&chars);
    let ghost all = lines(stdout@);
    let prefix = remotes_prefix_chars();
    let mut merged = MergedBranches::new();
    let mut i: usize = 0;
    assert(all.take(0) =~= Seq::<Seq<char>>::empty());
    while i < ls.len()
        invariant
            i <= ls@.len() == all.len(),
            forall|j: int| 0 <= j < ls@.len() ==> #[trigger] ls@[j]@ == all[j],
            prefix@ == remotes_prefix(),
            merged@ == merged_names(all.take(i as int)),
        decreases ls@.len() - i,
    {
        let t = trim_chars(&ls[i]);
        let e = strip_markers_chars(&t);
        let ghost before = merged@;
        assert(all.take(i + 1).drop_last() =~= all.take(i as int));
        assert(all.take(i + 1).last() == all[i as int]);
        let ghost names = entry_names(e@);
        assert(e@ == merged_entry(all[i as int]));
        if e.len() > 0 {
            let remote = starts_with_chars(&e, &prefix);
            let copy = slice_chars(&e, 0, e.len());
            assert(copy@ =~= e@);
            merged.insert(copy);
            if remote {
                let stripped = slice_chars(&e, 8, e.len());
                assert(stripped@ =~= e@.skip(8));
                merged.insert(stripped);
                assert(merged@ =~= before.union(names));
            } else {
                assert(merged@ =~= before.union(names));
            }
        } else {
            assert(merged@ =~= before.union(names));
        }
        i = i + 1;
    }
    assert(all.take(ls@.len() as int) =~= all);
    merged
}

} // verus!

verus! {

/// What a finished `git` command reported.
pub struct CommandOutput {
    /// Whether it exited with status zero
    pub success: bool,
    /// Its standard output, decoded as UTF-8 (invalid sequences replaced)
    pub stdout: String,
    /// Its standard error, decoded the same way
    pub stderr: String,
}

/// Why a git operation failed.
#[derive(Debug)]
pub enum GitError {
    /// A git command failed; the text says which and why.
    CommandFailed(String),
    /// `git branch -d` refused the branch because it is not fully merged.
    UnmergedBranch(String),
}

/// The `|`-separated fields of one `for-each-ref` line.
pub open spec fn ref_fields(line: Seq<char>) -> Seq<Seq<char>> {
    split_on(line, '|')
}

/// The commit timestamp on a `for-each-ref` line; `0` where it does not parse.
pub open spec fn ref_timestamp(line: Seq<char>) -> i64 {
    match parse_i64(ref_fields(line)[1]) {
        Some(x) => x,
        None => 0,
    }
}

/// Whether a `for-each-ref` line yields a branch: it has exactly four fields
/// and its name is not one of `skip`.
pub open spec fn ref_kept(line: Seq<char>, skip: Seq<Seq<char>>) -> bool {
    ref_fields(line).len() == 4 && !skip.contains(ref_fields(line)[0])
}

/// The lines of `ls` that yield branches, in order.
pub open spec fn kept_refs(ls: Seq<Seq<char>>, skip: Seq<Seq<char>>) -> Seq<Seq<char>>
    decreases ls.len(),
{
    if ls.len() == 0 {
        seq![]
    } else if ref_kept(ls.last(), skip) {
        kept_refs(ls.drop_last(), skip).push(ls.last())
    } else {
        kept_refs(ls.drop_last(), skip)
    }
}

/// Whether every line that yields a branch carries a timestamp chrono can
/// turn into a date (elsewhere the listing panics).
pub open spec fn ref_dates_valid(stdout: Seq<char>, skip: Seq<Seq<char>>) -> bool {
    forall|i: int|
        0 <= i < lines(stdout).len() && ref_kept(#[trigger] lines(stdout)[i], skip)
            ==> utc_representable(ref_timestamp(lines(stdout)[i]) as int)
}

/// Whether `b` is the branch that the `for-each-ref` line `line` describes.
pub open spec fn describes(
    b: Branch,
    line: Seq<char>,
    merged: Set<Seq<char>>,
    now: Instant,
    is_remote: bool,
) -> bool {
    let f = ref_fields(line);
    let ts = ref_timestamp(line);
    &&& b.name@ == f[0]
    &&& b.last_commit_date == ts
    &&& b.age_days == whole_days_between(now.secs as int, now.nanos as int, ts as int)
    &&& b.is_merged == merged.contains(f[0])
    &&& b.is_remote == is_remote
    &&& b.last_commit_sha@ == f[2]
    &&& b.last_commit_author@ == f[3]
}

/// Whether `bs` are the branches that the `for-each-ref` output `stdout`
/// lists, in order, leaving out the names in `skip`.
pub open spec fn lists_refs(
    bs: Seq<Branch>,
    stdout: Seq<char>,
    skip: Seq<Seq<char>>,
    merged: Set<Seq<char>>,
    now: Instant,
    is_remote: bool,
) -> bool {
    let kept = kept_refs(lines(stdout), skip);
    &&& bs.len() == kept.len()
    &&& forall|k: int| 0 <= k < bs.len() ==> describes(#[trigger] bs[k], kept[k], merged, now, is_remote)
}

/// Whether `name` is one of `skip`.
fn is_skipped(skip: &Vec<Vec<char>>, name: &Vec<char>) -> (r: bool)
    ensures
        r == skip@.map_values(|v: Vec<char>| v@).contains(name@),
{
    let ghost sv = skip@.map_values(|v: Vec<char>| v@);
    let mut i: usize = 0;
    while i < skip.len()
        invariant
            i <= skip@.len(),
            sv == skip@.map_values(|v: Vec<char>| v@),
            forall|k: int| 0 <= k < i ==> sv[k] != name@,
        decreases skip@.len() - i,
    {
        if chars_eq(&skip[i], name) {
            assert(sv[i as int] == name@);
            return true;
        }
        i = i + 1;
    }
    false
}

/// Whether every branch-yielding line of `stdout` has a representable date.
pub fn refs_dates_valid(stdout: &str, skip: &Vec<Vec<char>>) -> (r: bool)
    ensures
        r == ref_dates_valid(stdout@, skip@.map_values(|v: Vec<char>| v@)),
{
    let ghost sv = skip@.map_values(|v: Vec<char>| v@);
    let chars = chars_of(stdout);
    let ls = split_lines(&chars);
    let ghost all = lines(stdout@);
    let mut i: usize = 0;
    while i < ls.len()
        invariant
            i <= ls@.len() == all.len(),
            forall|j: int| 0 <= j < ls@.len() ==> #[trigger] ls@[j]@ == all[j],
            sv == skip@.map_values(|v: Vec<char>| v@),
            all == lines(stdout@),
            forall|j: int|
                0 <= j < i && ref_kept(#[trigger] all[j], sv) ==> utc_representable(
                    ref_timestamp(all[j]) as int,
                ),
        decreases ls@.len() - i,
    {
        let parts = split_chars(&ls[i], '|');
        assert(parts@.len() == ref_fields(all[i as int]).len());
        if parts.len() == 4 {
            assert(parts@[0]@ == ref_fields(all[i as int])[0]);
            assert(parts@[1]@ == ref_fields(all[i as int])[1]);
            if !is_skipped(skip, &parts[0]) {
                let ts = parse_i64_or_zero(&parts[1]);
                if !utc_timestamp_valid(ts) {
                    assert(ref_kept(all[i as int], sv));
                    assert(ts == ref_timestamp(all[i as int]));
                    assert(!ref_dates_valid(stdout@, sv));
                    return false;
                }
            }
        }
        i = i + 1;
    }
    true
}

/// Parses `for-each-ref --format=%(refname:short)|%(authordate:unix)|%(objectname:short)|%(authorname)`
/// output into branches, leaving out lines without exactly four fields and
/// the names in `skip`.
pub fn parse_ref_lines(
    stdout: &str,
    skip: &Vec<Vec<char>>,
    merged: &MergedBranches,
    now: Instant,
    is_remote: bool,
) -> (branches: Vec<Branch>)
    requires
        instant_valid(now),
        ref_dates_valid(stdout@, skip@.map_values(|v: Vec<char>| v@)),
    ensures
        lists_refs(
            branches@,
            stdout@,
            skip@.map_values(|v: Vec<char>| v@),
            merged@,
            now,
            is_remote,
        ),
{
    let ghost sv = skip@.map_values(|v: Vec<char>| v@);
    let chars = chars_of(stdout);
    let ls = split_lines(&chars);
    let ghost all = lines(stdout@);
    let mut branches: Vec<Branch> = Vec::new();
    let mut i: usize = 0;
    assert(all.take(0) =~= Seq::<Seq<char>>::empty());
    while i < ls.len()
        invariant
            i <= ls@.len() == all.len(),
            forall|j: int| 0 <= j < ls@.len() ==> #[trigger] ls@[j]@ == all[j],
            sv == skip@.map_values(|v: Vec<char>| v@),
            instant_valid(now),
            ref_dates_valid(stdout@, sv),
            all == lines(stdout@),
            branches@.len() == kept_refs(all.take(i as int), sv).len(),
            forall|k: int|
                0 <= k < branches@.len() ==> describes(
                    #[trigger] branches@[k],
                    kept_refs(all.take(i as int), sv)[k],
                    merged@,
                    now,
                    is_remote,
                ),
        decreases ls@.len() - i,
    {
        let ghost line = all[i as int];
        assert(all.take(i + 1).drop_last() =~= all.take(i as int));
        assert(all.take(i + 1).last() == line);
        let parts = split_chars(&ls[i], '|');
        assert(parts@.len() == ref_fields(line).len());
        if parts.len() == 4 {
            assert(parts@[0]@ == ref_fields(line)[0]);
            assert(parts@[1]@ == ref_fields(line)[1]);
            assert(parts@[2]@ == ref_fields(line)[2]);
            assert(parts@[3]@ == ref_fields(line)[3]);
            if !is_skipped(skip, &parts[0]) {
                let ts = parse_i64_or_zero(&parts[1]);
                assert(ref_kept(line, sv));
                assert(utc_representable(ts as int));
                let age_days = days_between(now, ts);
                let is_merged = merged.contains_chars(&parts[0]);
                let b = Branch {
                    name: string_of(&parts[0]),
                    age_days,
                    is_merged,
                    is_remote,
                    last_commit_sha: string_of(&parts[2]),
                    last_commit_date: ts,
                    last_commit_author: string_of(&parts[3]),
                };
                let ghost before = branches@;
                branches.push(b);
                assert forall|k: int| 0 <= k < branches@.len() implies describes(
                    #[trigger] branches@[k],
                    kept_refs(all.take(i + 1), sv)[k],
                    merged@,
                    now,
                    is_remote,
                ) by {
                    if k < before.len() {
                        assert(branches@[k] == before[k]);
                    }
                }
            }
        }
        i = i + 1;
    }
    assert(all.take(ls@.len() as int) =~= all);
    branches
}

} // verus!

verus! {

/// `"origin/"`.
pub open spec fn origin_prefix() -> Seq<char> {
    seq!['o', 'r', 'i', 'g', 'i', 'n', '/']
}

/// Local refs leave out the checked-out branch.
pub open spec fn local_skip(current_branch: Seq<char>) -> Seq<Seq<char>> {
    seq![current_branch]
}

/// Remote refs leave out `origin/HEAD` and the remote default branch.
pub open spec fn remote_skip(default_branch: Seq<char>) -> Seq<Seq<char>> {
    seq![origin_prefix() + seq!['H', 'E', 'A', 'D'], origin_prefix() + default_branch]
}

/// `"origin/"` as characters.
fn origin_prefix_chars() -> (r: Vec<char>)
    ensures
        r@ == origin_prefix(),
{
    let r = vec!['o', 'r', 'i', 'g', 'i', 'n', '/'];
    assert(r@ =~= origin_prefix());
    r
}

/// The concatenation of `a` and `b`.
fn concat_chars(a: &Vec<char>, b: &Vec<char>) -> (r: Vec<char>)
    ensures
        r@ == a@ + b@,
{
    let mut r = slice_chars(a, 0, a.len());
    let mut i: usize = 0;
    assert(r@ =~= a@ + b@.take(0));
    while i < b.len()
        invariant
            i <= b.len(),
            r@ == a@ + b@.take(i as int),
        decreases b.len() - i,
    {
        r.push(b[i]);
        i = i + 1;
        assert(r@ =~= a@ + b@.take(i as int));
    }
    assert(b@.take(b.len() as int) =~= b@);
    r
}

fn local_skip_chars(current_branch: &str) -> (r: Vec<Vec<char>>)
    ensures
        r@.map_values(|v: Vec<char>| v@) == local_skip(current_branch@),
{
    let mut r: Vec<Vec<char>> = Vec::new();
    r.push(chars_of(current_branch));
    assert(r@.map_values(|v: Vec<char>| v@) =~= local_skip(current_branch@));
    r
}

fn remote_skip_chars(default_branch: &str) -> (r: Vec<Vec<char>>)
    ensures
        r@.map_values(|v: Vec<char>| v@) == remote_skip(default_branch@),
{
    let origin = origin_prefix_chars();
    let head = vec!['H', 'E', 'A', 'D'];
    let mut r: Vec<Vec<char>> = Vec::new();
    r.push(concat_chars(&origin, &head));
    r.push(concat_chars(&origin, &chars_of(default_branch)));
    assert(head@ =~= seq!['H', 'E', 'A', 'D']);
    assert(r@.map_values(|v: Vec<char>| v@) =~= remote_skip(default_branch@));
    r
}

/// Local branches listed by `git for-each-ref ... refs/heads/`, without the
/// current branch.
pub fn list_local_branches(
    output: &CommandOutput,
    merged: &MergedBranches,
    current_branch: &str,
    now: Instant,
) -> (r: Result<Vec<Branch>, GitError>)
    requires
        instant_valid(now),
        output.success ==> ref_dates_valid(output.stdout@, local_skip(current_branch@)),
    ensures
        !output.success ==> (r matches Err(GitError::CommandFailed(m)) && m@
            == "Failed to list local branches: "@ + output.stderr@),
        output.success ==> (r matches Ok(bs) && lists_refs(
            bs@,
            output.stdout@,
            local_skip(current_branch@),
            merged@,
            now,
            false,
        )),
        output.success ==> (r matches Ok(bs) && forall|k: int|
            0 <= k < bs@.len() ==> #[trigger] bs@[k].name@ != current_branch@),
{
    if !output.success {
        let mut m = String::from_str("Failed to list local branches: ");
        m.append(output.stderr.as_str());
        return Err(GitError::CommandFailed(m));
    }
    let skip = local_skip_chars(current_branch);
    let bs = parse_ref_lines(output.stdout.as_str(), &skip, merged, now, false);
    proof {
        lemma_local_listing_skips_current(bs@, output.stdout@, current_branch@, merged@, now);
    }
    Ok(bs)
}

/// Remote branches listed by `git for-each-ref ... refs/remotes/origin/`,
/// without `origin/HEAD` and the remote default branch.
pub fn list_remote_branches(
    output: &CommandOutput,
    default_branch: &str,
    merged: &MergedBranches,
    now: Instant,
) -> (r: Result<Vec<Branch>, GitError>)
    requires
        instant_valid(now),
        output.success ==> ref_dates_valid(output.stdout@, remote_skip(default_branch@)),
    ensures
        !output.success ==> (r matches Err(GitError::CommandFailed(m)) && m@
            == "Failed to list remote branches: "@ + output.stderr@),
        output.success ==> (r matches Ok(bs) && lists_refs(
            bs@,
            output.stdout@,
            remote_skip(default_branch@),
            merged@,
            now,
            true,
        )),
        output.success ==> (r matches Ok(bs) && forall|k: int|
            0 <= k < bs@.len() ==> #[trigger] bs@[k].name@ != "origin/HEAD"@ && bs@[k].name@ != "origin/"@
                + default_branch@),
{
    if !output.success {
        let mut m = String::from_str("Failed to list remote branches: ");
        m.append(output.stderr.as_str());
        return Err(GitError::CommandFailed(m));
    }
    let skip = remote_skip_chars(default_branch);
    let bs = parse_ref_lines(output.stdout.as_str(), &skip, merged, now, true);
    proof {
        lemma_remote_listing_skips_head_and_default(bs@, output.stdout@, default_branch@, merged@, now);
    }
    Ok(bs)
}

} // verus!

verus! {

/// The checked-out branch a `git branch --show-current` run reports: its
/// trimmed output, or nothing when it failed.
pub open spec fn current_name(out: CommandOutput) -> Seq<char> {
    if out.success {
        trim(out.stdout@)
    } else {
        seq![]
    }
}

/// The merged set a `git branch --merged <default> -a` run gives: empty
/// when it failed.
pub open spec fn merged_from(out: CommandOutput) -> Set<Seq<char>> {
    if out.success {
        merged_names(lines(out.stdout@))
    } else {
        Set::empty()
    }
}

/// Get the current branch name from `git branch --show-current`.
pub fn get_current_branch(output: &CommandOutput) -> (r: Result<String, GitError>)
    ensures
        output.success ==> (r matches Ok(s) && s@ == trim(output.stdout@)),
        !output.success ==> (r matches Err(GitError::CommandFailed(m)) && m@
            == "Failed to get current branch"@),
{
    if !output.success {
        return Err(GitError::CommandFailed(String::from_str("Failed to get current branch")));
    }
    let t = trim_chars(&chars_of(output.stdout.as_str()));
    Ok(string_of(&t))
}

/// Get the set of all branches merged into the default branch from
/// `git branch --merged <default> -a`; empty when the command failed.
pub fn get_merged_branches(output: &CommandOutput) -> (merged: MergedBranches)
    ensures
        merged@ == merged_from(*output),
{
    if !output.success {
        return MergedBranches::new();
    }
    parse_merged_branches(output.stdout.as_str())
}

/// Whether every branch the listing would build has a representable date.
pub open spec fn listing_dates_valid(
    default_branch: Seq<char>,
    local: CommandOutput,
    current: CommandOutput,
    remote: CommandOutput,
) -> bool {
    &&& local.success ==> ref_dates_valid(local.stdout@, local_skip(current_name(current)))
    &&& local.success && remote.success ==> ref_dates_valid(
        remote.stdout@,
        remote_skip(default_branch),
    )
}

/// Whether every branch `list_branches` would build has a date chrono can
/// represent (elsewhere the listing panics).
pub fn branch_dates_valid(
    default_branch: &str,
    local: &CommandOutput,
    current: &CommandOutput,
    remote: &CommandOutput,
) -> (r: bool)
    ensures
        r == listing_dates_valid(default_branch@, *local, *current, *remote),
{
    let current_branch = match get_current_branch(current) {
        Ok(s) => s,
        Err(_) => String::new(),
    };
    if local.success {
        let skip = local_skip_chars(current_branch.as_str());
        if !refs_dates_valid(local.stdout.as_str(), &skip) {
            return false;
        }
        if remote.success {
            let rskip = remote_skip_chars(default_branch);
            return refs_dates_valid(remote.stdout.as_str(), &rskip);
        }
    }
    true
}

/// Whether `bs` lists the local refs of `local` and then the remote refs of
/// `remote`.
pub open spec fn lists_all(
    bs: Seq<Branch>,
    default_branch: Seq<char>,
    local: CommandOutput,
    current: CommandOutput,
    remote: CommandOutput,
    merged: Set<Seq<char>>,
    now: Instant,
) -> bool {
    let n = kept_refs(lines(local.stdout@), local_skip(current_name(current))).len();
    &&& n <= bs.len()
    &&& lists_refs(bs.take(n as int), local.stdout@, local_skip(current_name(current)), merged, now, false)
    &&& lists_refs(bs.skip(n as int), remote.stdout@, remote_skip(default_branch), merged, now, true)
}

/// List all branches (local and remote) from the outputs of
/// `git branch --merged`, the local `for-each-ref`, `git branch --show-current`
/// and the remote `for-each-ref`.
pub fn list_branches(
    default_branch: &str,
    merged_output: &CommandOutput,
    local: &CommandOutput,
    current: &CommandOutput,
    remote: &CommandOutput,
    now: Instant,
) -> (r: Result<Vec<Branch>, GitError>)
    requires
        instant_valid(now),
        listing_dates_valid(default_branch@, *local, *current, *remote),
    ensures
        !local.success ==> (r matches Err(GitError::CommandFailed(m)) && m@
            == "Failed to list local branches: "@ + local.stderr@),
        local.success && !remote.success ==> (r matches Err(GitError::CommandFailed(m)) && m@
            == "Failed to list remote branches: "@ + remote.stderr@),
        local.success && remote.success ==> (r matches Ok(bs) && lists_all(
            bs@,
            default_branch@,
            *local,
            *current,
            *remote,
            merged_from(*merged_output),
            now,
        )),
{
    let merged = get_merged_branches(merged_output);
    let current_branch = match get_current_branch(current) {
        Ok(s) => s,
        Err(_) => String::new(),
    };
    assert(current_branch@ == current_name(*current));
    let mut branches = list_local_branches(local, &merged, current_branch.as_str(), now)?;
    let ghost local_bs = branches@;
    let mut remote_branches = list_remote_branches(remote, default_branch, &merged, now)?;
    let ghost remote_bs = remote_branches@;
    branches.append(&mut remote_branches);
    proof {
        let n = local_bs.len();
        assert(branches@.take(n as int) =~= local_bs);
        assert(branches@.skip(n as int) =~= remote_bs);
    }
    Ok(branches)
}

} // verus!

verus! {

/// `"main"`.
pub open spec fn main_name() -> Seq<char> {
    seq!['m', 'a', 'i', 'n']
}

/// `"master"`.
pub open spec fn master_name() -> Seq<char> {
    seq!['m', 'a', 's', 't', 'e', 'r']
}

/// The default branch named by `git symbolic-ref refs/remotes/origin/HEAD --short`:
/// its trimmed output without `origin/`, or `main` when it lacks that prefix.
pub open spec fn remote_head_branch(stdout: Seq<char>) -> Seq<char> {
    let t = trim(stdout);
    if has_prefix(t, origin_prefix()) {
        t.skip(7)
    } else {
        main_name()
    }
}

/// Get the default branch (main, master, etc.): the remote HEAD when
/// `git symbolic-ref` succeeded, else `main` or `master` when such a local
/// branch exists (probed in that order), else `main`.
pub fn get_default_branch(remote_head: &CommandOutput, main_exists: bool, master_exists: bool) -> (r: String)
    ensures
        remote_head.success ==> r@ == remote_head_branch(remote_head.stdout@),
        !remote_head.success && main_exists ==> r@ == main_name(),
        !remote_head.success && !main_exists && master_exists ==> r@ == master_name(),
        !remote_head.success && !main_exists && !master_exists ==> r@ == main_name(),
{
    let main = vec!['m', 'a', 'i', 'n'];
    assert(main@ =~= main_name());
    if remote_head.success {
        let t = trim_chars(&chars_of(remote_head.stdout.as_str()));
        let origin = origin_prefix_chars();
        if starts_with_chars(&t, &origin) {
            let name = slice_chars(&t, 7, t.len());
            assert(name@ =~= t@.skip(7));
            return string_of(&name);
        }
        return string_of(&main);
    }
    if main_exists {
        return string_of(&main);
    }
    if master_exists {
        let master = vec!['m', 'a', 's', 't', 'e', 'r'];
        assert(master@ =~= master_name());
        return string_of(&master);
    }
    string_of(&main)
}

/// The outcome of `git fetch --prune`.
pub fn fetch_and_prune(output: &CommandOutput) -> (r: Result<(), GitError>)
    ensures
        output.success ==> r is Ok,
        !output.success ==> (r matches Err(GitError::CommandFailed(m)) && m@
            == "git fetch --prune failed: "@ + output.stderr@),
{
    if !output.success {
        let mut m = String::from_str("git fetch --prune failed: ");
        m.append(output.stderr.as_str());
        return Err(GitError::CommandFailed(m));
    }
    Ok(())
}

/// The `git branch` flag that deletes a branch: `-D` with force, else `-d`.
pub fn delete_flag(force: bool) -> (flag: &'static str)
    ensures
        flag@ == (if force {
            "-D"@
        } else {
            "-d"@
        }),
{
    if force {
        "-D"
    } else {
        "-d"
    }
}

/// The outcome of `git branch -d|-D <branch>`: a refusal that mentions
/// "not fully merged" is an unmerged-branch error.
pub fn delete_local_branch(branch: &str, output: &CommandOutput) -> (r: Result<(), GitError>)
    ensures
        output.success ==> r is Ok,
        !output.success && contains_seq(output.stderr@, "not fully merged"@) ==> (r matches Err(
            GitError::UnmergedBranch(b),
        ) && b@ == branch@),
        !output.success && !contains_seq(output.stderr@, "not fully merged"@) ==> (r matches Err(
            GitError::CommandFailed(m),
        ) && m@ == "Failed to delete branch '"@ + branch@ + "': "@ + output.stderr@),
{
    if output.success {
        return Ok(());
    }
    let needle = chars_of("not fully merged");
    if contains_chars(&chars_of(output.stderr.as_str()), &needle) {
        return Err(GitError::UnmergedBranch(String::from_str(branch)));
    }
    let mut m = String::from_str("Failed to delete branch '");
    m.append(branch);
    m.append("': ");
    m.append(output.stderr.as_str());
    Err(GitError::CommandFailed(m))
}

/// The name `git push origin --delete` takes for a remote branch: the
/// branch without its `origin/` prefix.
pub fn remote_branch_name(branch: &str) -> (r: String)
    ensures
        has_prefix(branch@, origin_prefix()) ==> r@ == branch@.skip(7),
        !has_prefix(branch@, origin_prefix()) ==> r@ == branch@,
{
    let b = chars_of(branch);
    if starts_with_chars(&b, &origin_prefix_chars()) {
        let s = slice_chars(&b, 7, b.len());
        assert(s@ =~= b@.skip(7));
        return string_of(&s);
    }
    String::from_str(branch)
}

/// The outcome of `git push origin --delete <name>` for `branch`.
pub fn delete_remote_branch(branch: &str, output: &CommandOutput) -> (r: Result<(), GitError>)
    ensures
        output.success ==> r is Ok,
        !output.success ==> (r matches Err(GitError::CommandFailed(m)) && m@
            == "Failed to delete remote branch '"@ + branch@ + "': "@ + output.stderr@),
{
    if output.success {
        return Ok(());
    }
    let mut m = String::from_str("Failed to delete remote branch '");
    m.append(branch);
    m.append("': ");
    m.append(output.stderr.as_str());
    Err(GitError::CommandFailed(m))
}

/// The SHA `git rev-parse <branch>` printed (for backup purposes).
pub fn get_branch_sha(branch: &str, output: &CommandOutput) -> (r: Result<String, GitError>)
    ensures
        output.success ==> (r matches Ok(s) && s@ == trim(output.stdout@)),
        !output.success ==> (r matches Err(GitError::CommandFailed(m)) && m@
            == "Failed to get SHA for branch '"@ + branch@ + "'"@),
{
    if !output.success {
        let mut m = String::from_str("Failed to get SHA for branch '");
        m.append(branch);
        m.append("'");
        return Err(GitError::CommandFailed(m));
    }
    let t = trim_chars(&chars_of(output.stdout.as_str()));
    Ok(string_of(&t))
}

} // verus!

verus! {

/// Every non-empty entry of the output is in the merged set, and a
/// `remotes/...` entry is there in both forms: as printed, and without
/// `remotes/` (the form `origin/...` that remote branches are looked up by).
pub proof fn lemma_merged_has_both_forms(ls: Seq<Seq<char>>, i: int)
    requires
        0 <= i < ls.len(),
        merged_entry(ls[i]).len() > 0,
    ensures
        merged_names(ls).contains(merged_entry(ls[i])),
        has_prefix(merged_entry(ls[i]), remotes_prefix()) ==> merged_names(ls).contains(
            merged_entry(ls[i]).skip(8),
        ),
    decreases ls.len(),
{
    if i < ls.len() - 1 {
        assert(ls.drop_last()[i] == ls[i]);
        lemma_merged_has_both_forms(ls.drop_last(), i);
    }
}

/// Every name in the merged set comes from some line: it is that line's
/// entry, or the entry is `remotes/` followed by it.
pub proof fn lemma_merged_names_come_from_lines(ls: Seq<Seq<char>>, n: Seq<char>)
    requires
        merged_names(ls).contains(n),
    ensures
        exists|i: int|
            0 <= i < ls.len() && (merged_entry(#[trigger] ls[i]) == n || (has_prefix(
                merged_entry(ls[i]),
                remotes_prefix(),
            ) && merged_entry(ls[i]).skip(8) == n)),
    decreases ls.len(),
{
    if ls.len() > 0 {
        if merged_names(ls.drop_last()).contains(n) {
            lemma_merged_names_come_from_lines(ls.drop_last(), n);
            let i = choose|i: int|
                0 <= i < ls.drop_last().len() && (merged_entry(#[trigger] ls.drop_last()[i]) == n || (has_prefix(
                    merged_entry(ls.drop_last()[i]),
                    remotes_prefix(),
                ) && merged_entry(ls.drop_last()[i]).skip(8) == n));
            assert(ls[i] == ls.drop_last()[i]);
        } else {
            let j = ls.len() - 1;
            assert(ls[j] == ls.last());
        }
    }
}

/// A listing never holds a skipped name (the current branch among local
/// branches; `origin/HEAD` and the default branch among remote ones), and
/// each listed branch is marked merged exactly when its name is in the
/// merged set.
pub proof fn lemma_listing_respects_skip(
    bs: Seq<Branch>,
    stdout: Seq<char>,
    skip: Seq<Seq<char>>,
    merged: Set<Seq<char>>,
    now: Instant,
    is_remote: bool,
)
    requires
        lists_refs(bs, stdout, skip, merged, now, is_remote),
    ensures
        forall|k: int| 0 <= k < bs.len() ==> !skip.contains(#[trigger] bs[k].name@),
        forall|k: int| 0 <= k < bs.len() ==> (#[trigger] bs[k]).is_merged == merged.contains(bs[k].name@),
        forall|k: int| 0 <= k < bs.len() ==> (#[trigger] bs[k]).is_remote == is_remote,
{
    let kept = kept_refs(lines(stdout), skip);
    lemma_kept_refs_kept(lines(stdout), skip);
    assert forall|k: int| 0 <= k < bs.len() implies !skip.contains(#[trigger] bs[k].name@) by {
        assert(describes(bs[k], kept[k], merged, now, is_remote));
        assert(ref_kept(kept[k], skip));
    }
    assert forall|k: int| 0 <= k < bs.len() implies (#[trigger] bs[k]).is_merged == merged.contains(bs[k].name@) by {
        assert(describes(bs[k], kept[k], merged, now, is_remote));
    }
    assert forall|k: int| 0 <= k < bs.len() implies (#[trigger] bs[k]).is_remote == is_remote by {
        assert(describes(bs[k], kept[k], merged, now, is_remote));
    }
}

proof fn lemma_kept_refs_kept(ls: Seq<Seq<char>>, skip: Seq<Seq<char>>)
    ensures
        forall|k: int| 0 <= k < kept_refs(ls, skip).len() ==> ref_kept(#[trigger] kept_refs(ls, skip)[k], skip),
    decreases ls.len(),
{
    if ls.len() > 0 {
        lemma_kept_refs_kept(ls.drop_last(), skip);
        let prev = kept_refs(ls.drop_last(), skip);
        assert forall|k: int| 0 <= k < kept_refs(ls, skip).len() implies ref_kept(
            #[trigger] kept_refs(ls, skip)[k],
            skip,
        ) by {
            if k < prev.len() {
                assert(kept_refs(ls, skip)[k] == prev[k]);
            }
        }
    }
}

} // verus!

verus! {

impl GitError {
    /// The text of the error.
    pub open spec fn text(&self) -> Seq<char> {
        match self {
            GitError::CommandFailed(m) => m@,
            GitError::UnmergedBranch(b) => "Branch '"@ + b@ + "' is not fully merged"@,
        }
    }

    /// The text of the error.
    pub fn message(&self) -> (m: String)
        ensures
            m@ == self.text(),
    {
        match self {
            GitError::CommandFailed(m) => m.clone(),
            GitError::UnmergedBranch(b) => {
                let mut m = String::from_str("Branch '");
                m.append(b.as_str());
                m.append("' is not fully merged");
                m
            },
        }
    }
}

} // verus!

verus! {

/// A remote listing never holds `origin/HEAD`, nor `origin/` followed by
/// the default branch it was given, whatever that branch is called.
pub proof fn lemma_remote_listing_skips_head_and_default(
    bs: Seq<Branch>,
    stdout: Seq<char>,
    default_branch: Seq<char>,
    merged: Set<Seq<char>>,
    now: Instant,
)
    requires
        lists_refs(bs, stdout, remote_skip(default_branch), merged, now, true),
    ensures
        forall|k: int|
            0 <= k < bs.len() ==> #[trigger] bs[k].name@ != "origin/HEAD"@ && bs[k].name@ != "origin/"@
                + default_branch,
{
    reveal_strlit("origin/HEAD");
    reveal_strlit("origin/");
    let skip = remote_skip(default_branch);
    lemma_listing_respects_skip(bs, stdout, skip, merged, now, true);
    assert("origin/HEAD"@ =~= skip[0]);
    assert("origin/"@ + default_branch =~= skip[1]);
    assert(skip.contains(skip[0]));
    assert(skip.contains(skip[1]));
}

/// A local listing never holds the checked-out branch it was given.
pub proof fn lemma_local_listing_skips_current(
    bs: Seq<Branch>,
    stdout: Seq<char>,
    current_branch: Seq<char>,
    merged: Set<Seq<char>>,
    now: Instant,
)
    requires
        lists_refs(bs, stdout, local_skip(current_branch), merged, now, false),
    ensures
        forall|k: int| 0 <= k < bs.len() ==> #[trigger] bs[k].name@ != current_branch,
{
    let skip = local_skip(current_branch);
    lemma_listing_respects_skip(bs, stdout, skip, merged, now, false);
    assert(skip.contains(skip[0]));
}

} // verus!
