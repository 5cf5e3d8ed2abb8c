//! A check that some running process's command line starts with a prefix.
use vstd::prelude::*;
use crate::executor::{CheckOutcome, CommandLine, Executor, OutcomeModel, RunModel, RunOutput};
use crate::text::{chars_of, has_prefix, split, split_on, starts_with, string_of, trim, trimmed, views};

verus! {

#[derive(Debug, Clone, PartialEq)]
pub struct ProcessChecker {
    pub prefix: String,
}

/// The header line of the process listing.
pub open spec fn header() -> Seq<char> {
    seq!['C', 'O', 'M', 'M', 'A', 'N', 'D']
}

/// Whether a listing line names a process that the check looks for.
pub open spec fn is_match(prefix: Seq<char>, line: Seq<char>) -> bool {
    line != header() && starts_with(line, prefix)
}

/// The lines of a process listing that name a process with the prefix, in listing order.
pub open spec fn matching_processes(prefix: Seq<char>, listing: Seq<char>) -> Seq<Seq<char>> {
    split(trim(listing), '\n').filter(matcher(prefix))
}

pub open spec fn matcher(prefix: Seq<char>) -> spec_fn(Seq<char>) -> bool {
    |l: Seq<char>| is_match(prefix, l)
}

/// Lines joined with `\n` between them.
pub open spec fn join_lines(ls: Seq<Seq<char>>) -> Seq<char>
    decreases ls.len(),
{
    if ls.len() == 0 {
        Seq::empty()
    } else if ls.len() == 1 {
        ls[0]
    } else {
        join_lines(ls.drop_last()) + seq!['\n'] + ls.last()
    }
}

/// Error output of the listing makes the check fail with that text; otherwise the check
/// passes when some process matches, and its output is the matching lines.
pub open spec fn process_outcome(prefix: Seq<char>, run: RunModel) -> OutcomeModel {
    if run.stderr.len() > 0 {
        OutcomeModel { success: false, output: run.stderr }
    } else {
        let m = matching_processes(prefix, run.stdout);
        OutcomeModel { success: m.len() > 0, output: join_lines(m) }
    }
}

pub open spec fn ps_command() -> (Seq<char>, Seq<Seq<char>>) {
    (seq!['p', 's'], seq![seq!['-', 'e', 'o'], seq!['c', 'o', 'm', 'm', 'a', 'n', 'd']])
}

fn line_matches(prefix: &Vec<char>, line: &Vec<char>) -> (r: bool)
    ensures
        r == is_match(prefix@, line@),
{
    let head: Vec<char> = vec!['C', 'O', 'M', 'M', 'A', 'N', 'D'];
    assert(head@ =~= header());
    let is_header = has_prefix(line, &head) && line.len() == head.len();
    proof {
        if line@.len() == head@.len() {
            assert(line@.subrange(0, head@.len() as int) =~= line@);
        }
    }
    !is_header && has_prefix(line, prefix)
}

/// The matching lines of a listing.
fn select_matching(prefix: &Vec<char>, listing: &Vec<char>) -> (r: Vec<Vec<char>>)
    ensures
        views(r@) == matching_processes(prefix@, listing@),
{
    let lines = split_on(&trimmed(listing), '\n');
    let ghost all = split(trim(listing@), '\n');
    let ghost pred = matcher(prefix@);
    let mut out: Vec<Vec<char>> = Vec::new();
    let mut i: usize = 0;
    assert(all.subrange(0, 0) =~= Seq::<Seq<char>>::empty());
    while i < lines.len()
        invariant
            views(lines@) == all,
            i <= lines@.len(),
            pred == matcher(prefix@),
            views(out@) == all.subrange(0, i as int).filter(pred),
        decreases lines@.len() - i,
    {
        assert(lines@[i as int]@ == all[i as int]);
        assert(all.subrange(0, i + 1).drop_last() =~= all.subrange(0, i as int));
        let ghost before = out@;
        let ghost sub = all.subrange(0, i + 1);
        assert(sub.last() == all[i as int]);
        reveal(Seq::filter);
        assert(sub.filter(pred) == (if pred(sub.last()) {
            sub.drop_last().filter(pred).push(sub.last())
        } else {
            sub.drop_last().filter(pred)
        }));
        assert(pred(all[i as int]) == is_match(prefix@, lines@[i as int]@));
        if line_matches(prefix, &lines[i]) {
            let copy = crate::text::slice(&lines[i], 0, lines[i].len());
            assert(copy@ =~= lines@[i as int]@);
            out.push(copy);
            assert(views(out@) =~= views(before).push(all[i as int]));
        }
        i = i + 1;
    }
    assert(all.subrange(0, i as int) =~= all);
    out
}

fn join(ls: &Vec<Vec<char>>) -> (r: Vec<char>)
    ensures
        r@ == join_lines(views(ls@)),
{
    let ghost v = views(ls@);
    let mut out: Vec<char> = Vec::new();
    let mut i: usize = 0;
    assert(v.subrange(0, 0) =~= Seq::<Seq<char>>::empty());
    while i < ls.len()
        invariant
            v == views(ls@),
            i <= ls@.len(),
            out@ == join_lines(v.subrange(0, i as int)),
        decreases ls@.len() - i,
    {
        let ghost before = out@;
        let ghost sub = v.subrange(0, i + 1);
        assert(sub.drop_last() =~= v.subrange(0, i as int));
        assert(sub.last() == ls@[i as int]@);
        if i > 0 {
            out.push('\n');
        }
        let mut piece = crate::text::slice(&ls[i], 0, ls[i].len());
        assert(piece@ =~= ls@[i as int]@);
        out.append(&mut piece);
        if i == 0 {
            assert(out@ =~= join_lines(sub));
        } else {
            assert(out@ =~= join_lines(sub));
        }
        i = i + 1;
    }
    assert(v.subrange(0, i as int) =~= v);
    out
}

impl ProcessChecker {
    pub fn new(prefix: &str) -> (r: Self)
        ensures
            r.prefix@ == prefix@,
    {
        ProcessChecker { prefix: prefix.to_owned() }
    }
}

impl Executor for ProcessChecker {
    /// The listing of every process's command line: `ps -eo command`.
    open spec fn command_spec(&self) -> (Seq<char>, Seq<Seq<char>>) {
        ps_command()
    }

    open spec fn outcome_spec(&self, run: RunModel) -> OutcomeModel {
        process_outcome(self.prefix@, run)
    }

    fn command(&self) -> (r: CommandLine) {
        let args: Vec<String> = vec![
            string_of(&vec!['-', 'e', 'o']),
            string_of(&vec!['c', 'o', 'm', 'm', 'a', 'n', 'd']),
        ];
        let r = CommandLine { program: string_of(&vec!['p', 's']), args };
        assert(r.view().1 =~= ps_command().1);
        assert(r.view().0 =~= ps_command().0);
        r
    }

    fn outcome(&self, run: &RunOutput) -> (r: CheckOutcome) {
        let err = chars_of(run.stderr.as_str());
        if err.len() > 0 {
            CheckOutcome { success: false, output: run.stderr.clone() }
        } else {
            let prefix = chars_of(self.prefix.as_str());
            let listing = chars_of(run.stdout.as_str());
            let found = select_matching(&prefix, &listing);
            let text = join(&found);
            CheckOutcome { success: found.len() > 0, output: string_of(&text) }
        }
    }
}


/// With an empty prefix the check passes on any listing that names at least one process
/// besides the header, as a running system's listing always does.
pub proof fn lemma_empty_prefix_matches_any_process(run: RunModel, i: int)
    requires
        run.stderr.len() == 0,
        0 <= i < split(trim(run.stdout), '\n').len(),
        split(trim(run.stdout), '\n')[i] != header(),
    ensures
        process_outcome(Seq::empty(), run).success,
{
    let all = split(trim(run.stdout), '\n');
    let l = all[i];
    assert(l.subrange(0, 0) =~= Seq::<char>::empty());
    assert(matcher(Seq::empty())(l));
    all.lemma_filter_contains(matcher(Seq::empty()), i);
}

} // verus!
