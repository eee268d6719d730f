//! The dispatcher's rules: how a run is sized, what happens to a job whose
//! attempts fail, and how the results of a batch, which come back in any
//! order, are put in input order and turned into sink lines.
use vstd::prelude::*;
use vstd::pervasive::VecAdditionalExecFns;
use crate::response::LatexmlResponse;
use crate::server::BACKUP_OFFSET;
use crate::text::{decimal_of, decimal_string};

verus! {

/// Jobs per worker in one batch.
pub const JOBS_PER_WORKER: usize = 100;

/// Attempts made at one job before it is given up.
pub const MAX_ATTEMPTS: u8 = 3;

/// The number of jobs read and converted together by `workers` workers.
pub fn batch_size(workers: u16) -> (r: usize)
    ensures
        r == JOBS_PER_WORKER * workers,
{
    JOBS_PER_WORKER * (workers as usize)
}

/// The ports of `workers` workers booted from `from_port` on: consecutive
/// ports, each with room for its backup port. `None` when there is no worker
/// or some backup port would not exist.
pub fn worker_ports(from_port: u16, workers: u16) -> (r: Option<Vec<u16>>)
    ensures
        (r is Some) <==> (workers > 0 && from_port + workers - 1 + BACKUP_OFFSET <= u16::MAX),
        r matches Some(ports) ==> {
            &&& ports@.len() == workers
            &&& forall|i: int| 0 <= i < workers ==> ports@[i] == from_port + i
        },
{
    if workers == 0 || (from_port as u32) + (workers as u32) - 1 + (BACKUP_OFFSET as u32)
        > u16::MAX as u32 {
        return None;
    }
    let mut ports: Vec<u16> = Vec::new();
    let mut i: u16 = 0;
    while i < workers
        invariant
            from_port + workers - 1 + BACKUP_OFFSET <= u16::MAX,
            i <= workers,
            ports@.len() == i,
            forall|k: int| 0 <= k < i ==> ports@[k] == from_port + k,
        decreases workers - i,
    {
        ports.push(from_port + i);
        i = i + 1;
    }
    Some(ports)
}

/// What to do after an attempt at a job.
#[derive(Debug)]
pub enum JobStep {
    /// Attempt the job once more on the same worker.
    Retry,
    /// The job is settled with this record.
    Done(LatexmlResponse),
}

/// One attempt at a job, taken from `failures` earlier failed attempts:
/// `outcome` is the record, or `None` when the attempt failed. It leads to
/// `next_failures` failed attempts and to `step`.
pub open spec fn attempt_step(
    failures: nat,
    outcome: Option<LatexmlResponse>,
    next_failures: nat,
    step: JobStep,
) -> bool {
    match outcome {
        Some(r) => next_failures == failures && step == JobStep::Done(r),
        None => {
            &&& next_failures == failures + 1
            &&& if failures + 1 < MAX_ATTEMPTS {
                step is Retry
            } else {
                step matches JobStep::Done(s) && s.is_sentinel()
            }
        },
    }
}

/// The failed attempts made so far at one job.
#[derive(Debug)]
pub struct JobAttempts {
    failures: u8,
}

impl JobAttempts {
    pub closed spec fn failures(&self) -> nat {
        self.failures as nat
    }

    /// Attempts are still open.
    pub open spec fn open(&self) -> bool {
        self.failures() < MAX_ATTEMPTS
    }

    /// No attempt made yet.
    pub fn new() -> (r: Self)
        ensures
            r.failures() == 0,
            r.open(),
    {
        JobAttempts { failures: 0 }
    }

    /// Records the outcome of one attempt (`None` for a failed one) and
    /// says what comes next: the record, another attempt, or, after the
    /// third failure, the sentinel record.
    pub fn record(&mut self, outcome: Option<LatexmlResponse>) -> (r: JobStep)
        requires
            old(self).open(),
        ensures
            attempt_step(old(self).failures(), outcome, final(self).failures(), r),
            r is Retry ==> final(self).open(),
    {
        match outcome {
            Some(response) => JobStep::Done(response),
            None => {
                self.failures = self.failures + 1;
                if self.failures < MAX_ATTEMPTS {
                    JobStep::Retry
                } else {
                    JobStep::Done(LatexmlResponse::default())
                }
            },
        }
    }
}

/// The log line of a record: its status code in decimal.
pub open spec fn log_line(r: LatexmlResponse) -> Seq<char> {
    decimal_of(r.status_code as nat)
}

/// A job whose three attempts all failed is settled with an empty result
/// and the log line `3`.
pub proof fn lemma_persistent_failure(f1: nat, f2: nat, f3: nat, s1: JobStep, s2: JobStep, s3: JobStep)
    requires
        attempt_step(0, None, f1, s1),
        attempt_step(f1, None, f2, s2),
        attempt_step(f2, None, f3, s3),
    ensures
        s1 is Retry,
        s2 is Retry,
        s3 matches JobStep::Done(r) && r.result@ == Seq::<char>::empty() && log_line(r) == seq!['3'],
{
    assert(decimal_of(3) == seq!['3']);
}

/// Some value tagged with position `i` came back.
pub open spec fn is_claimed<T>(tagged: Seq<(usize, T)>, i: int) -> bool {
    exists|k: int| 0 <= k < tagged.len() && tagged[k].0 == i
}

/// Values tagged with their positions in a batch of `n` came back, in any
/// order: each position `0..n` exactly once.
pub open spec fn is_position_permutation<T>(tagged: Seq<(usize, T)>) -> bool {
    &&& forall|k: int| 0 <= k < tagged.len() ==> tagged[k].0 < tagged.len()
    &&& forall|k: int, l: int| 0 <= k < l < tagged.len() ==> tagged[k].0 != tagged[l].0
    &&& forall|i: int| 0 <= i < tagged.len() ==> #[trigger] is_claimed(tagged, i)
}

/// `out` holds each tagged value at the position of its tag.
pub open spec fn in_position_order<T>(tagged: Seq<(usize, T)>, out: Seq<T>) -> bool {
    &&& out.len() == tagged.len()
    &&& forall|k: int| 0 <= k < tagged.len() ==> out[tagged[k].0 as int] == tagged[k].1
}

/// Puts values tagged with their positions back in position order. `None`
/// when the tags are not each position of the batch exactly once.
pub fn reorder<T>(tagged: Vec<(usize, T)>) -> (r: Option<Vec<T>>)
    ensures
        (r is Some) <==> is_position_permutation(tagged@),
        r matches Some(out) ==> in_position_order(tagged@, out@),
{
    let n = tagged.len();
    let ghost orig = tagged@;
    let mut rest = tagged;
    let mut slots: Vec<Option<T>> = Vec::new();
    let mut i: usize = 0;
    while i < n
        invariant
            i <= n,
            slots@.len() == i,
            forall|j: int| 0 <= j < i ==> slots@[j] is None,
        decreases n - i,
    {
        slots.push(None);
        i = i + 1;
    }
    // Place the values from the back, checking that each tag is new and in range.
    while rest.len() > 0
        invariant
            orig == tagged@,
            n == orig.len(),
            slots@.len() == n,
            rest@.len() <= n,
            rest@ == orig.subrange(0, rest@.len() as int),
            forall|k: int| rest@.len() <= k < n ==> orig[k].0 < n,
            forall|k: int, l: int| rest@.len() <= k < l < n ==> orig[k].0 != orig[l].0,
            forall|k: int| rest@.len() <= k < n ==> slots@[orig[k].0 as int] == Some(orig[k].1),
            forall|j: int| 0 <= j < n && slots@[j] is Some ==> exists|k: int|
                rest@.len() <= k < n && orig[k].0 == j,
        decreases rest@.len(),
    {
        let ghost m = rest@.len() as int;
        let (pos, value) = rest.pop().unwrap();
        assert(orig[m - 1] == (pos, value));
        if pos >= n {
            proof {
                assert(!is_position_permutation(orig));
            }
            return None;
        }
        if slots[pos].is_some() {
            proof {
                let k = choose|k: int| m <= k < n && orig[k].0 == pos;
                assert(m - 1 < k);
                assert(!is_position_permutation(orig));
            }
            return None;
        }
        slots.set(pos, Some(value));
        proof {
            assert forall|j: int| 0 <= j < n && slots@[j] is Some implies exists|k: int|
                m - 1 <= k < n && orig[k].0 == j by {
                if j != pos {
                    let k = choose|k: int| m <= k < n && orig[k].0 == j;
                    assert(m - 1 <= k < n && orig[k].0 == j);
                } else {
                    assert(orig[m - 1].0 == j);
                }
            }
        }
    }
    // Every slot is now filled exactly when the tags cover every position.
    let mut out: Vec<T> = Vec::new();
    let mut j: usize = 0;
    while j < n
        invariant
            orig == tagged@,
            n == orig.len(),
            slots@.len() == n,
            j <= n,
            out@.len() == j,
            forall|k: int| 0 <= k < n ==> orig[k].0 < n,
            forall|k: int, l: int| 0 <= k < l < n ==> orig[k].0 != orig[l].0,
            forall|k: int| 0 <= k < n && orig[k].0 >= j ==> slots@[orig[k].0 as int] == Some(
                orig[k].1,
            ),
            forall|k: int| 0 <= k < n && orig[k].0 < j ==> out@[orig[k].0 as int] == orig[k].1,
            forall|x: int| j <= x < n && slots@[x] is Some ==> exists|k: int|
                0 <= k < n && orig[k].0 == x,
            forall|x: int| 0 <= x < j ==> #[trigger] is_claimed(orig, x),
        decreases n - j,
    {
        let mut taken: Option<T> = None;
        let ghost before = slots@;
        slots.set_and_swap(j, &mut taken);
        match taken {
            Some(value) => {
                proof {
                    let k = choose|k: int| 0 <= k < n && orig[k].0 == j;
                    assert(orig[k].1 == value);
                }
                out.push(value);
            },
            None => {
                proof {
                    if exists|k: int| 0 <= k < n && orig[k].0 == j {
                        let k = choose|k: int| 0 <= k < n && orig[k].0 == j;
                        assert(before[j as int] == Some(orig[k].1));
                    }
                    if is_claimed(orig, j as int) {
                        let k = choose|k: int| 0 <= k < n && orig[k].0 == j;
                        assert(before[j as int] == Some(orig[k].1));
                    }
                    assert(!is_position_permutation(orig));
                }
                return None;
            },
        }
        j = j + 1;
    }
    Some(out)
}

/// The lines of one batch for the result sink and the log sink.
#[derive(Debug)]
pub struct BatchLines {
    pub results: Vec<String>,
    pub logs: Vec<String>,
}

/// `results` and `logs` hold, at the position of each tag, the result and
/// the log line of the record that came back with it.
pub open spec fn sink_lines_of(
    tagged: Seq<(usize, LatexmlResponse)>,
    results: Seq<String>,
    logs: Seq<String>,
) -> bool {
    &&& results.len() == tagged.len()
    &&& logs.len() == tagged.len()
    &&& forall|k: int|
        0 <= k < tagged.len() ==> {
            &&& (#[trigger] results[tagged[k].0 as int])@ == tagged[k].1.result@
            &&& logs[tagged[k].0 as int]@ == log_line(tagged[k].1)
        }
}

/// The sink lines of records already in order: each result and its status
/// code in decimal.
pub fn sink_lines(responses: &Vec<LatexmlResponse>) -> (r: BatchLines)
    ensures
        r.results@.len() == responses@.len(),
        r.logs@.len() == responses@.len(),
        forall|i: int|
            0 <= i < responses@.len() ==> {
                &&& (#[trigger] r.results@[i])@ == responses@[i].result@
                &&& r.logs@[i]@ == log_line(responses@[i])
            },
{
    let mut results: Vec<String> = Vec::new();
    let mut logs: Vec<String> = Vec::new();
    let mut i: usize = 0;
    while i < responses.len()
        invariant
            i <= responses@.len(),
            results@.len() == i,
            logs@.len() == i,
            forall|j: int|
                0 <= j < i ==> {
                    &&& (#[trigger] results@[j])@ == responses@[j].result@
                    &&& logs@[j]@ == log_line(responses@[j])
                },
        decreases responses@.len() - i,
    {
        results.push(responses[i].result.clone());
        logs.push(decimal_string(responses[i].status_code as u64));
        i = i + 1;
    }
    BatchLines { results, logs }
}

/// Completes a batch of `batch_len` jobs from the records that came back
/// tagged with their positions. `None` when the records do not match the
/// jobs one to one, which the caller treats as fatal.
pub fn finish_batch(batch_len: usize, tagged: Vec<(usize, LatexmlResponse)>) -> (r: Option<
    BatchLines,
>)
    ensures
        (r is Some) <==> (tagged@.len() == batch_len && is_position_permutation(tagged@)),
        r matches Some(lines) ==> {
            &&& lines.results@.len() == batch_len
            &&& lines.logs@.len() == batch_len
            &&& sink_lines_of(tagged@, lines.results@, lines.logs@)
        },
{
    if tagged.len() != batch_len {
        return None;
    }
    let ghost orig = tagged@;
    match reorder(tagged) {
        Some(ordered) => {
            let lines = sink_lines(&ordered);
            proof {
                assert forall|k: int| 0 <= k < orig.len() implies {
                    &&& (#[trigger] lines.results@[orig[k].0 as int])@ == orig[k].1.result@
                    &&& lines.logs@[orig[k].0 as int]@ == log_line(orig[k].1)
                } by {
                    let i = orig[k].0 as int;
                    assert(0 <= i < orig.len());
                    assert(ordered@[i] == orig[k].1);
                    assert(lines.results@[i]@ == ordered@[i].result@);
                }
            }
            Some(lines)
        },
        None => None,
    }
}

/// Whatever order the records come back in, the sinks list `f` of each
/// input in input order, when each record is `f` of the input at its tag.
pub proof fn lemma_order_preserved(
    inputs: Seq<Seq<char>>,
    f: spec_fn(Seq<char>) -> LatexmlResponse,
    tagged: Seq<(usize, LatexmlResponse)>,
    results: Seq<String>,
    logs: Seq<String>,
)
    requires
        tagged.len() == inputs.len(),
        is_position_permutation(tagged),
        forall|k: int| 0 <= k < tagged.len() ==> tagged[k].1 == f(inputs[tagged[k].0 as int]),
        sink_lines_of(tagged, results, logs),
    ensures
        results.len() == inputs.len(),
        logs.len() == inputs.len(),
        forall|i: int|
            0 <= i < inputs.len() ==> {
                &&& (#[trigger] results[i])@ == f(inputs[i]).result@
                &&& logs[i]@ == log_line(f(inputs[i]))
            },
{
    assert forall|i: int| 0 <= i < inputs.len() implies {
        &&& (#[trigger] results[i])@ == f(inputs[i]).result@
        &&& logs[i]@ == log_line(f(inputs[i]))
    } by {
        assert(is_claimed(tagged, i));
        let k = choose|k: int| 0 <= k < tagged.len() && tagged[k].0 == i;
        assert(tagged[k].1 == f(inputs[tagged[k].0 as int]));
        assert(results[tagged[k].0 as int]@ == tagged[k].1.result@);
        assert(logs[tagged[k].0 as int]@ == log_line(tagged[k].1));
    }
}

} // verus!
