//! Deployment orchestration state: the shared status record polled by
//! callers, the single-flight start check, the fixed argument lists of the
//! supported commands, and the bookkeeping for the concurrent drain of the
//! child process's two output streams.
//!
//! Spawning, stream reading and signalling are I/O and live with the
//! caller; every state decision and transition is made here.

use vstd::prelude::*;

use crate::text::{chars_of, contains_seq, contains_seq_s, eq_chars};

verus! {

// ─── The shared status record ───────────────────────────────────────────────

/// The polled record of an in-flight or completed invocation: whether one
/// is running, its command line, the accumulated output of both streams,
/// the final success flag, and whether prior state allows a rollback.
#[derive(Debug)]
pub struct DeploymentStatus {
    pub running: bool,
    pub command: Option<String>,
    pub output: String,
    pub success: Option<bool>,
    pub can_rollback: bool,
}

/// Mathematical view of a status record.
pub struct StatusView {
    pub running: bool,
    pub command: Option<Seq<char>>,
    pub output: Seq<char>,
    pub success: Option<bool>,
    pub can_rollback: bool,
}

impl View for DeploymentStatus {
    type V = StatusView;

    open spec fn view(&self) -> StatusView {
        StatusView {
            running: self.running,
            command: self.command.deep_view(),
            output: self.output@,
            success: self.success,
            can_rollback: self.can_rollback,
        }
    }
}

/// The idle state: nothing running, no output, no verdict.
pub open spec fn idle_status() -> StatusView {
    StatusView {
        running: false,
        command: None,
        output: Seq::empty(),
        success: None,
        can_rollback: false,
    }
}

impl Default for DeploymentStatus {
    /// A fresh record is idle.
    fn default() -> (r: DeploymentStatus)
        ensures
            r@ == idle_status(),
    {
        let r = DeploymentStatus {
            running: false,
            command: None,
            output: String::new(),
            success: None,
            can_rollback: false,
        };
        proof {
            assert(r@.output =~= idle_status().output);
        }
        r
    }
}

impl DeploymentStatus {
    /// An independent copy of the record.
    pub fn snapshot(&self) -> (r: DeploymentStatus)
        ensures
            r@ == self@,
    {
        DeploymentStatus {
            running: self.running,
            command: match &self.command {
                Some(c) => Some(c.clone()),
                None => None,
            },
            output: self.output.clone(),
            success: self.success,
            can_rollback: self.can_rollback,
        }
    }
}

// ─── Command argument lists ─────────────────────────────────────────────────

/// The fixed argument list of a supported command: prompts and color are
/// disabled, apply and destroy auto-approve. Unknown commands have none.
pub open spec fn terraform_args_spec(cmd: Seq<char>) -> Option<Seq<Seq<char>>> {
    if cmd == "init"@ {
        Some(seq!["init"@, "-no-color"@])
    } else if cmd == "plan"@ {
        Some(seq!["plan"@, "-no-color"@])
    } else if cmd == "apply"@ {
        Some(seq!["apply"@, "-auto-approve"@, "-no-color"@])
    } else if cmd == "destroy"@ {
        Some(seq!["destroy"@, "-auto-approve"@, "-no-color"@])
    } else {
        None
    }
}

/// The argument list for a command name, or the rejection for an unknown
/// one.
pub fn terraform_args(command: &str) -> (r: Result<Vec<String>, String>)
    ensures
        match r {
            Ok(args) => terraform_args_spec(command@) == Some(args.deep_view()),
            Err(e) => terraform_args_spec(command@) is None && e@ == "Unknown command: "@
                + command@,
        },
{
    let cv = chars_of(command);
    if eq_chars(&cv, &chars_of("init")) {
        let mut args: Vec<String> = Vec::new();
        args.push(String::from_str("init"));
        args.push(String::from_str("-no-color"));
        proof {
            assert(args.deep_view() =~~= seq!["init"@, "-no-color"@]);
        }
        Ok(args)
    } else if eq_chars(&cv, &chars_of("plan")) {
        let mut args: Vec<String> = Vec::new();
        args.push(String::from_str("plan"));
        args.push(String::from_str("-no-color"));
        proof {
            assert(args.deep_view() =~~= seq!["plan"@, "-no-color"@]);
        }
        Ok(args)
    } else if eq_chars(&cv, &chars_of("apply")) {
        let mut args: Vec<String> = Vec::new();
        args.push(String::from_str("apply"));
        args.push(String::from_str("-auto-approve"));
        args.push(String::from_str("-no-color"));
        proof {
            assert(args.deep_view() =~~= seq!["apply"@, "-auto-approve"@, "-no-color"@]);
        }
        Ok(args)
    } else if eq_chars(&cv, &chars_of("destroy")) {
        let mut args: Vec<String> = Vec::new();
        args.push(String::from_str("destroy"));
        args.push(String::from_str("-auto-approve"));
        args.push(String::from_str("-no-color"));
        proof {
            assert(args.deep_view() =~~= seq!["destroy"@, "-auto-approve"@, "-no-color"@]);
        }
        Ok(args)
    } else {
        Err(String::from_str("Unknown command: ").concat(command))
    }
}

// ─── Prior-state detection ──────────────────────────────────────────────────

/// Whether recorded state text shows deployed resources: both a resources
/// member and a resource type appear.
pub fn state_has_resources(content: &str) -> (r: bool)
    ensures
        r == (contains_seq_s(content@, "\"resources\""@) && contains_seq_s(
            content@,
            "\"type\""@,
        )),
{
    let cs = chars_of(content);
    contains_seq(&cs, &chars_of("\"resources\"")) && contains_seq(&cs, &chars_of("\"type\""))
}

// ─── The orchestrator ───────────────────────────────────────────────────────

/// Caller-owned orchestrator state: the polled status record and the slot
/// for the running child's process identifier. The caller serializes
/// access (one lock around the whole value) and performs the actual
/// spawning, draining, waiting and signalling.
#[derive(Debug)]
pub struct Orchestrator {
    pub status: DeploymentStatus,
    pub process: Option<u32>,
}

impl Orchestrator {
    /// A fresh orchestrator: idle, no recorded process.
    pub fn new() -> (r: Orchestrator)
        ensures
            r.status@ == idle_status(),
            r.process is None,
    {
        Orchestrator { status: DeploymentStatus::default(), process: None }
    }

    /// Accept or reject a new invocation. While one is running the request
    /// is rejected and nothing changes — a single-flight guarantee, not a
    /// queue. An unknown command is rejected before anything changes. On
    /// acceptance the status is reset to running the given command with
    /// empty output, no verdict yet, and rollback availability as computed
    /// from prior state; the accepted argument list is returned for the
    /// caller to spawn with.
    pub fn start(&mut self, command: &str, state_exists: bool) -> (r: Result<Vec<String>, String>)
        ensures
            old(self).status.running ==> (r matches Err(e) && e@
                == "A deployment is already running"@) && *final(self) == *old(self),
            !old(self).status.running ==> match terraform_args_spec(command@) {
                Some(args) => r matches Ok(a) && a.deep_view() == args && final(self).process
                    == old(self).process && final(self).status@ == (StatusView {
                    running: true,
                    command: Some("terraform "@ + command@),
                    output: Seq::empty(),
                    success: None,
                    can_rollback: state_exists,
                }),
                None => (r matches Err(e) && e@ == "Unknown command: "@ + command@) && *final(self)
                    == *old(self),
            },
    {
        if self.status.running {
            return Err(String::from_str("A deployment is already running"));
        }
        let args = terraform_args(command)?;
        let cmdline = String::from_str("terraform ").concat(command);
        self.status.running = true;
        self.status.command = Some(cmdline);
        self.status.output = String::new();
        self.status.success = None;
        self.status.can_rollback = state_exists;
        proof {
            assert(self.status@.output =~= Seq::<char>::empty());
        }
        Ok(args)
    }

    /// Record the spawned child's process identifier.
    pub fn set_process(&mut self, pid: u32)
        ensures
            final(self).process == Some(pid),
            final(self).status == old(self).status,
    {
        self.process = Some(pid);
    }

    /// Clear the process slot once the child has exited.
    pub fn clear_process(&mut self)
        ensures
            final(self).process is None,
            final(self).status == old(self).status,
    {
        self.process = None;
    }

    /// The recorded process identifier, if a child is being supervised.
    pub fn process_id(&self) -> (r: Option<u32>)
        ensures
            r == self.process,
    {
        self.process
    }

    /// Append one drained line and a newline to the shared output. Each of
    /// the two stream drains calls this once per line it reads.
    pub fn append_output_line(&mut self, line: &str)
        ensures
            final(self).status@ == (StatusView {
                output: old(self).status@.output + line@ + "\n"@,
                ..old(self).status@
            }),
            final(self).process == old(self).process,
    {
        self.status.output.append(line);
        self.status.output.append("\n");
    }

    /// Append a whole stream's lines in order, as its drain does.
    pub fn drain_lines(&mut self, lines: &Vec<String>)
        ensures
            final(self).status@ == (StatusView {
                output: drained_output(old(self).status@.output, lines.deep_view()),
                ..old(self).status@
            }),
            final(self).process == old(self).process,
    {
        let ghost l0 = lines.deep_view();
        let mut i: usize = 0;
        while i < lines.len()
            invariant
                l0 == lines.deep_view(),
                lines@.len() == l0.len(),
                i <= lines.len(),
                self.process == old(self).process,
                self.status@ == (StatusView {
                    output: drained_output(old(self).status@.output, l0.take(i as int)),
                    ..old(self).status@
                }),
            decreases lines.len() - i,
        {
            proof {
                assert(l0[i as int] == lines@[i as int]@);
                assert(l0.take(i + 1 as int) =~~= l0.take(i as int).push(l0[i as int]));
                lemma_drained_output_snoc(
                    old(self).status@.output,
                    l0.take(i as int),
                    l0[i as int],
                );
            }
            self.append_output_line(lines[i].as_str());
            i = i + 1;
        }
        proof {
            assert(l0.take(l0.len() as int) =~~= l0);
        }
    }

    /// Close out a completed run: not running, the exit verdict recorded,
    /// rollback availability recomputed; command and output stay.
    pub fn finish(&mut self, success: bool, state_exists: bool)
        ensures
            final(self).status@ == (StatusView {
                running: false,
                success: Some(success),
                can_rollback: state_exists,
                ..old(self).status@
            }),
            final(self).process == old(self).process,
    {
        self.status.running = false;
        self.status.success = Some(success);
        self.status.can_rollback = state_exists;
    }

    /// Record a failure after the run began: not running, failed, with a
    /// note appended to the output.
    pub fn abort(&mut self, note: &str)
        ensures
            final(self).status@ == (StatusView {
                running: false,
                success: Some(false),
                output: old(self).status@.output + note@,
                ..old(self).status@
            }),
            final(self).process == old(self).process,
    {
        self.status.running = false;
        self.status.success = Some(false);
        self.status.output.append(note);
    }

    /// Record that the child could not be spawned: not running, failed,
    /// the output replaced by a descriptive message.
    pub fn fail_to_start(&mut self, message: &str)
        ensures
            final(self).status@ == (StatusView {
                running: false,
                success: Some(false),
                output: "Failed to start terraform: "@ + message@,
                ..old(self).status@
            }),
            final(self).process == old(self).process,
    {
        self.status.running = false;
        self.status.success = Some(false);
        self.status.output = String::from_str("Failed to start terraform: ").concat(message);
    }

    /// Record a cancellation: not running, failed, with the cancellation
    /// note appended. Best-effort — the caller signals the process and
    /// forces this shape whether or not the signal still found it.
    pub fn cancel_mark(&mut self)
        ensures
            final(self).status@ == (StatusView {
                running: false,
                success: Some(false),
                output: old(self).status@.output + "\n\nDeployment cancelled by user."@,
                ..old(self).status@
            }),
            final(self).process == old(self).process,
    {
        self.status.running = false;
        self.status.success = Some(false);
        self.status.output.append("\n\nDeployment cancelled by user.");
    }

    /// Reset the status record to idle; the process slot is untouched.
    pub fn reset(&mut self)
        ensures
            final(self).status@ == idle_status(),
            final(self).process == old(self).process,
    {
        self.status = DeploymentStatus::default();
    }

    /// An independent snapshot of the current status, for polling callers.
    pub fn status(&self) -> (r: DeploymentStatus)
        ensures
            r@ == self.status@,
    {
        self.status.snapshot()
    }
}

// ─── The concurrent drain, modelled ─────────────────────────────────────────

/// Whether `m` is an interleaving of `a` and `b`: it deals the lines of
/// both streams out in some order, keeping each stream's own order.
pub open spec fn is_merge_of(m: Seq<Seq<char>>, a: Seq<Seq<char>>, b: Seq<Seq<char>>) -> bool
    decreases m.len(),
{
    if m.len() == 0 {
        a.len() == 0 && b.len() == 0
    } else {
        ||| (a.len() > 0 && m[0] == a[0] && is_merge_of(m.drop_first(), a.drop_first(), b))
        ||| (b.len() > 0 && m[0] == b[0] && is_merge_of(m.drop_first(), a, b.drop_first()))
    }
}

/// Whether `x` occurs within `m` in order.
pub open spec fn is_subseq_of(x: Seq<Seq<char>>, m: Seq<Seq<char>>) -> bool
    decreases m.len(),
{
    if x.len() == 0 {
        true
    } else if m.len() == 0 {
        false
    } else {
        ||| (m[0] == x[0] && is_subseq_of(x.drop_first(), m.drop_first()))
        ||| is_subseq_of(x, m.drop_first())
    }
}

/// The output after appending each line of `m`, with its newline, to
/// `base` — exactly what iterated `append_output_line` calls leave.
pub open spec fn drained_output(base: Seq<char>, m: Seq<Seq<char>>) -> Seq<char>
    decreases m.len(),
{
    if m.len() == 0 {
        base
    } else {
        drained_output(base + m[0] + "\n"@, m.drop_first())
    }
}

/// The lines of `m` concatenated, each followed by a newline.
pub open spec fn output_of(m: Seq<Seq<char>>) -> Seq<char>
    decreases m.len(),
{
    if m.len() == 0 {
        Seq::empty()
    } else {
        m[0] + "\n"@ + output_of(m.drop_first())
    }
}

proof fn lemma_drained_output_snoc(base: Seq<char>, m: Seq<Seq<char>>, x: Seq<char>)
    ensures
        drained_output(base, m.push(x)) == drained_output(base, m) + x + "\n"@,
    decreases m.len(),
{
    if m.len() == 0 {
        assert(m.push(x)[0] == x);
        assert(m.push(x).drop_first() =~= Seq::<Seq<char>>::empty());
        assert(drained_output(base + x + "\n"@, Seq::<Seq<char>>::empty()) == base + x + "\n"@);
        assert(drained_output(base, m.push(x)) == drained_output(
            base + x + "\n"@,
            Seq::<Seq<char>>::empty(),
        ));
    } else {
        assert(m.push(x)[0] == m[0]);
        assert(m.push(x).drop_first() =~= m.drop_first().push(x));
        lemma_drained_output_snoc(base + m[0] + "\n"@, m.drop_first(), x);
    }
}

proof fn lemma_drained_is_appended(base: Seq<char>, m: Seq<Seq<char>>)
    ensures
        drained_output(base, m) == base + output_of(m),
    decreases m.len(),
{
    if m.len() == 0 {
        assert(base + output_of(m) =~= base);
    } else {
        lemma_drained_is_appended(base + m[0] + "\n"@, m.drop_first());
        assert((base + m[0] + "\n"@) + output_of(m.drop_first()) =~= base + (m[0] + "\n"@
            + output_of(m.drop_first())));
    }
}

proof fn lemma_merge_len(m: Seq<Seq<char>>, a: Seq<Seq<char>>, b: Seq<Seq<char>>)
    requires
        is_merge_of(m, a, b),
    ensures
        m.len() == a.len() + b.len(),
    decreases m.len(),
{
    if m.len() > 0 {
        if a.len() > 0 && m[0] == a[0] && is_merge_of(m.drop_first(), a.drop_first(), b) {
            lemma_merge_len(m.drop_first(), a.drop_first(), b);
        } else {
            lemma_merge_len(m.drop_first(), a, b.drop_first());
        }
    }
}

proof fn lemma_subseq_skip(x: Seq<Seq<char>>, m: Seq<Seq<char>>)
    requires
        m.len() > 0,
        is_subseq_of(x, m.drop_first()),
    ensures
        is_subseq_of(x, m),
{
}

proof fn lemma_merge_subseq(m: Seq<Seq<char>>, a: Seq<Seq<char>>, b: Seq<Seq<char>>)
    requires
        is_merge_of(m, a, b),
    ensures
        is_subseq_of(a, m),
        is_subseq_of(b, m),
    decreases m.len(),
{
    if m.len() > 0 {
        if a.len() > 0 && m[0] == a[0] && is_merge_of(m.drop_first(), a.drop_first(), b) {
            lemma_merge_subseq(m.drop_first(), a.drop_first(), b);
            lemma_subseq_skip(b, m);
        } else {
            lemma_merge_subseq(m.drop_first(), a, b.drop_first());
            lemma_subseq_skip(a, m);
        }
    }
}

/// Concurrent drain: however the two streams' lines interleave, draining
/// the interleaving appends every one of its lines with a newline to the
/// output — and the interleaving holds all lines of both streams, each
/// stream's internal order preserved. A full buffer on one stream never
/// loses or reorders the other stream's lines.
pub proof fn lemma_concurrent_drain(
    base: Seq<char>,
    m: Seq<Seq<char>>,
    a: Seq<Seq<char>>,
    b: Seq<Seq<char>>,
)
    requires
        is_merge_of(m, a, b),
    ensures
        drained_output(base, m) == base + output_of(m),
        m.len() == a.len() + b.len(),
        is_subseq_of(a, m),
        is_subseq_of(b, m),
{
    lemma_drained_is_appended(base, m);
    lemma_merge_len(m, a, b);
    lemma_merge_subseq(m, a, b);
}

} // verus!
