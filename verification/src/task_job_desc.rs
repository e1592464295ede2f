//! The description of the tasks and jobs that a worker can execute, and the
//! validation that such a description is consistent.
use vstd::prelude::*;

use crate::dict::{
    lemma_entries_forall, lemma_map_of_entries_contains, lemma_map_of_entries_distinct, Dict,
};
use crate::error::Error;
use crate::placeholder::{
    is_identifier_char, lemma_placeholder_found, placeholder_identifiers, placeholders,
};

verus! {

/// The description of jobs and tasks that can be executed by a worker.
#[derive(Debug, Clone)]
pub struct TaskJobDesc {
    /// The tasks that can be executed by a job.
    pub tasks: Dict<TaskDefinition>,
    /// The jobs that can be executed by a worker.
    pub jobs: Dict<JobDefinition>,
}

/// The definition of a single task that can be executed by a job.
#[derive(Debug, Clone)]
pub struct TaskDefinition {
    /// A small description of what the task is doing.
    pub description: String,
    /// The inputs for the task.
    pub input: Dict<TaskInput>,
    /// The command to execute on the worker.
    pub exec_command: String,
    /// The arguments to pass to the command.
    pub exec_args: Vec<String>,
}

/// A single input for a task.
#[derive(Debug, Clone)]
pub struct TaskInput {
    /// A small description of what the input is used for.
    pub description: String,
    /// If true, the input value is a secret and should not be logged.
    pub secret: bool,
    /// The source type, where the input value is coming from.
    pub source_type: TaskInputSourceType,
}

/// The source, where the input value is coming from.
#[derive(Debug, PartialEq, Eq, Structural, Hash, Clone, Copy)]
pub enum TaskInputSourceType {
    /// The input value is coming from a parameter that has to be explicitly be set, e.g., job
    /// input parameter or set by a spawn task.
    Parameter,
    /// The input value is coming from an environment variable.
    Environment,
}

/// The definition of a job: its inputs and its stages.
#[derive(Debug, Clone)]
pub struct JobDefinition {
    /// A small description of what the job is doing.
    pub description: String,
    /// The job inputs.
    pub input: Dict<JobInput>,
    /// The stages of the job.
    pub stages: Vec<JobStage>,
}

/// A single input of a job.
#[derive(Debug, Clone)]
pub struct JobInput {
    /// A small description of what the input is used for.
    pub description: String,
    /// The source, where the input value is coming from.
    pub source_type: JobInputSourceType,
    /// If true, the input value is a secret and should not be logged.
    pub secret: bool,
    /// Optionally, the key value if the source is http-headers.
    pub key: Option<String>,
}

/// The source of a job input.
#[derive(Debug, PartialEq, Eq, Structural, Hash, Clone)]
pub enum JobInputSourceType {
    /// The input value is coming from a parameter that has to be explicitly be set through the job
    /// request.
    Parameter,
    /// The input value is coming from HTTP headers.
    HTTPHeader,
}

/// A stage of a job.
#[derive(Debug, Clone)]
pub struct JobStage {
    /// The name of the stage.
    pub name: String,
    /// Optionally, a special task that should be executed before the stage to spawn the tasks.
    pub spawn_task: Option<String>,
    /// The class of task that should be executed in this stage.
    pub task_class: String,
    /// If true, the job will fail if the task fails.
    /// If false, the job will continue with the next stage.
    pub job_failed_on_error: bool,
}

// ---------------------------------------------------------------------------
// The first problem found in a sequence.

/// The message of the first element of `s` on which `f` reports a problem.
pub open spec fn first_message<A>(s: Seq<A>, f: spec_fn(A) -> Option<Seq<char>>) -> Option<
    Seq<char>,
>
    decreases s.len(),
{
    if s.len() == 0 {
        None
    } else {
        match f(s[0]) {
            Some(m) => Some(m),
            None => first_message(s.drop_first(), f),
        }
    }
}

/// There is no first problem exactly when no element has a problem.
pub proof fn lemma_first_message_none<A>(s: Seq<A>, f: spec_fn(A) -> Option<Seq<char>>)
    ensures
        first_message(s, f) is None <==> forall|i: int| 0 <= i < s.len() ==> #[trigger] f(s[i]) is None,
    decreases s.len(),
{
    if s.len() > 0 {
        lemma_first_message_none(s.drop_first(), f);
        if first_message(s, f) is None {
            assert forall|i: int| 0 <= i < s.len() implies #[trigger] f(s[i]) is None by {
                if i > 0 {
                    assert(s[i] == s.drop_first()[i - 1]);
                }
            }
        }
        if forall|i: int| 0 <= i < s.len() ==> #[trigger] f(s[i]) is None {
            assert(f(s[0]) is None);
            assert forall|i: int| 0 <= i < s.drop_first().len() implies #[trigger] f(
                s.drop_first()[i],
            ) is None by {
                assert(s.drop_first()[i] == s[i + 1]);
            }
        }
    }
}

/// The first problem is that of the first element that has one.
pub proof fn lemma_first_message_at<A>(s: Seq<A>, f: spec_fn(A) -> Option<Seq<char>>, i: int)
    requires
        0 <= i < s.len(),
        forall|j: int| 0 <= j < i ==> #[trigger] f(s[j]) is None,
        f(s[i]) is Some,
    ensures
        first_message(s, f) == f(s[i]),
    decreases s.len(),
{
    if i > 0 {
        assert(f(s[0]) is None);
        let t = s.drop_first();
        assert forall|j: int| 0 <= j < i - 1 implies #[trigger] f(t[j]) is None by {
            assert(t[j] == s[j + 1]);
        }
        assert(t[i - 1] == s[i]);
        lemma_first_message_at(t, f, i - 1);
    }
}

// ---------------------------------------------------------------------------
// The messages of the problems.

/// The message for a task without a command.
pub open spec fn no_command_message(task: Seq<char>) -> Seq<char> {
    "Task "@ + task + " has no exec_command"@
}

/// The message for a placeholder that names no input of its task.
pub open spec fn unknown_identifier_message(task: Seq<char>, identifier: Seq<char>) -> Seq<char> {
    "Task "@ + task + " has an invalid input identifier in exec_args: "@ + identifier
}

/// The message for a stage whose task class names no task.
pub open spec fn missing_task_class_message() -> Seq<char> {
    "No task definition for the task class 'task'"@
}

/// The message for a stage whose spawn task names no task.
pub open spec fn unknown_spawn_task_message(job: Seq<char>, spawn_task: Seq<char>) -> Seq<char> {
    "Job "@ + job + " has an invalid spawn task identifier: "@ + spawn_task
}

/// The message for a parameter input of a stage's task that the job does not have.
/// The three names stand in the order in which the validation hands them over.
pub open spec fn missing_parameter_message(
    task_class: Seq<char>,
    job: Seq<char>,
    input: Seq<char>,
) -> Seq<char> {
    "Task "@ + task_class + " requires input parameter "@ + job + " but job "@ + input
        + " does not provide it."@
}

// ---------------------------------------------------------------------------
// What the validation reports, in the order in which it looks.

/// The problem of a placeholder of a task, if it names no input of the task.
pub open spec fn identifier_problem(task: Seq<char>, t: TaskDefinition, id: Seq<char>) -> Option<
    Seq<char>,
> {
    if t.input@.contains_key(id) {
        None
    } else {
        Some(unknown_identifier_message(task, id))
    }
}

pub open spec fn identifier_problem_fn(task: Seq<char>, t: TaskDefinition) -> spec_fn(
    Seq<char>,
) -> Option<Seq<char>> {
    |id: Seq<char>| identifier_problem(task, t, id)
}

/// The first problem among the placeholders of an argument of a task.
pub open spec fn argument_problem(task: Seq<char>, t: TaskDefinition, arg: String) -> Option<
    Seq<char>,
> {
    first_message(placeholders(arg@), identifier_problem_fn(task, t))
}

pub open spec fn argument_problem_fn(task: Seq<char>, t: TaskDefinition) -> spec_fn(String) -> Option<
    Seq<char>,
> {
    |arg: String| argument_problem(task, t, arg)
}

/// The first problem of a task: a missing command, else the first placeholder
/// that names no input of the task.
pub open spec fn task_problem(task: Seq<char>, t: TaskDefinition) -> Option<Seq<char>> {
    if t.exec_command@.len() == 0 {
        Some(no_command_message(task))
    } else {
        first_message(t.exec_args@, argument_problem_fn(task, t))
    }
}

pub open spec fn task_problem_fn() -> spec_fn((Seq<char>, TaskDefinition)) -> Option<Seq<char>> {
    |e: (Seq<char>, TaskDefinition)| task_problem(e.0, e.1)
}

/// The problem of a parameter input of a stage's task that the job does not have.
pub open spec fn input_problem(
    task_class: Seq<char>,
    job: Seq<char>,
    j: JobDefinition,
    e: (Seq<char>, TaskInput),
) -> Option<Seq<char>> {
    if e.1.source_type == TaskInputSourceType::Parameter && !j.input@.contains_key(e.0) {
        Some(missing_parameter_message(task_class, job, e.0))
    } else {
        None
    }
}

pub open spec fn input_problem_fn(task_class: Seq<char>, job: Seq<char>, j: JobDefinition) -> spec_fn(
    (Seq<char>, TaskInput),
) -> Option<Seq<char>> {
    |e: (Seq<char>, TaskInput)| input_problem(task_class, job, j, e)
}

impl TaskJobDesc {
    /// The first problem of a stage of a job: an unknown task class, else an unknown
    /// spawn task, else (without a spawn task) the first parameter input of the task
    /// class that the job does not have.
    pub open spec fn stage_problem(self, job: Seq<char>, j: JobDefinition, stage: JobStage) -> Option<
        Seq<char>,
    > {
        if !self.tasks@.contains_key(stage.task_class@) {
            Some(missing_task_class_message())
        } else {
            match stage.spawn_task {
                Some(spawn) => if self.tasks@.contains_key(spawn@) {
                    None
                } else {
                    Some(unknown_spawn_task_message(job, spawn@))
                },
                None => first_message(
                    self.tasks@[stage.task_class@].input.entries(),
                    input_problem_fn(stage.task_class@, job, j),
                ),
            }
        }
    }

    pub open spec fn stage_problem_fn(self, job: Seq<char>, j: JobDefinition) -> spec_fn(
        JobStage,
    ) -> Option<Seq<char>> {
        |stage: JobStage| self.stage_problem(job, j, stage)
    }

    /// The first problem among the stages of a job.
    pub open spec fn job_problem(self, job: Seq<char>, j: JobDefinition) -> Option<Seq<char>> {
        first_message(j.stages@, self.stage_problem_fn(job, j))
    }

    pub open spec fn job_problem_fn(self) -> spec_fn((Seq<char>, JobDefinition)) -> Option<
        Seq<char>,
    > {
        |e: (Seq<char>, JobDefinition)| self.job_problem(e.0, e.1)
    }

    /// The problem that the validation reports: the first problem among the tasks, else
    /// the first problem among the jobs.
    pub open spec fn first_problem(self) -> Option<Seq<char>> {
        match first_message(self.tasks.entries(), task_problem_fn()) {
            Some(m) => Some(m),
            None => first_message(self.jobs.entries(), self.job_problem_fn()),
        }
    }
}

// ---------------------------------------------------------------------------
// What a valid description is.

/// A task is valid when it has a command and every placeholder in its arguments
/// names one of its inputs.
pub open spec fn task_valid(t: TaskDefinition) -> bool {
    &&& t.exec_command@.len() > 0
    &&& forall|i: int, k: int|
        0 <= i < t.exec_args@.len() && 0 <= k < placeholders(t.exec_args@[i]@).len()
            ==> t.input@.contains_key(#[trigger] placeholders(t.exec_args@[i]@)[k])
}

/// Every parameter input of the task is an input of the job.
pub open spec fn job_provides_parameters(t: TaskDefinition, j: JobDefinition) -> bool {
    forall|name: Seq<char>|
        #[trigger] t.input@.contains_key(name) && t.input@[name].source_type
            == TaskInputSourceType::Parameter ==> j.input@.contains_key(name)
}

impl TaskJobDesc {
    /// No key occurs twice in the maps of the description.
    pub open spec fn wf(self) -> bool {
        &&& self.tasks.wf()
        &&& self.jobs.wf()
        &&& forall|name: Seq<char>| #[trigger]
            self.tasks@.contains_key(name) ==> self.tasks@[name].input.wf()
    }

    /// A stage is valid when its task class is a task of the description, and its
    /// spawn task, if it has one, is one too; without a spawn task, the job must
    /// provide every parameter input of the task class.
    pub open spec fn stage_valid(self, j: JobDefinition, stage: JobStage) -> bool {
        &&& self.tasks@.contains_key(stage.task_class@)
        &&& match stage.spawn_task {
            Some(spawn) => self.tasks@.contains_key(spawn@),
            None => job_provides_parameters(self.tasks@[stage.task_class@], j),
        }
    }

    /// All stages of a job are valid.
    pub open spec fn job_stages_valid(self, j: JobDefinition) -> bool {
        forall|n: int| 0 <= n < j.stages@.len() ==> self.stage_valid(j, #[trigger] j.stages@[n])
    }

    /// A description is valid when all its tasks and all stages of its jobs are.
    pub open spec fn valid(self) -> bool {
        &&& forall|name: Seq<char>| #[trigger]
            self.tasks@.contains_key(name) ==> task_valid(self.tasks@[name])
        &&& forall|name: Seq<char>, i: int|
            #[trigger] self.jobs@.contains_key(name) && 0 <= i < self.jobs@[name].stages@.len()
                ==> self.stage_valid(self.jobs@[name], #[trigger] self.jobs@[name].stages@[i])
    }
}

proof fn lemma_argument_problem(task: Seq<char>, t: TaskDefinition, arg: String)
    ensures
        argument_problem(task, t, arg) is None <==> (forall|k: int|
            0 <= k < placeholders(arg@).len() ==> t.input@.contains_key(
                #[trigger] placeholders(arg@)[k],
            )),
{
    let ph = placeholders(arg@);
    let idf = identifier_problem_fn(task, t);
    lemma_first_message_none(ph, idf);
    if argument_problem(task, t, arg) is None {
        assert forall|k: int| 0 <= k < ph.len() implies t.input@.contains_key(#[trigger] ph[k]) by {
            assert(idf(ph[k]) is None);
        }
    }
    if forall|k: int| 0 <= k < ph.len() ==> t.input@.contains_key(#[trigger] ph[k]) {
        assert forall|k: int| 0 <= k < ph.len() implies #[trigger] idf(ph[k]) is None by {
            assert(t.input@.contains_key(ph[k]));
        }
    }
}

proof fn lemma_task_problem(task: Seq<char>, t: TaskDefinition)
    ensures
        task_problem(task, t) is None <==> task_valid(t),
{
    if t.exec_command@.len() > 0 {
        let args = t.exec_args@;
        let af = argument_problem_fn(task, t);
        lemma_first_message_none(args, af);
        if task_problem(task, t) is None {
            assert forall|i: int, k: int|
                0 <= i < t.exec_args@.len() && 0 <= k < placeholders(t.exec_args@[i]@).len()
                implies t.input@.contains_key(#[trigger] placeholders(t.exec_args@[i]@)[k]) by {
                assert(af(args[i]) is None);
                lemma_argument_problem(task, t, args[i]);
            }
        }
        if task_valid(t) {
            assert forall|i: int| 0 <= i < args.len() implies #[trigger] af(args[i]) is None by {
                lemma_argument_problem(task, t, args[i]);
                assert forall|k: int| 0 <= k < placeholders(args[i]@).len() implies t.input@.contains_key(
                    #[trigger] placeholders(args[i]@)[k],
                ) by {
                    assert(t.input@.contains_key(placeholders(t.exec_args@[i]@)[k]));
                }
            }
        }
    }
}

proof fn lemma_stage_problem(d: TaskJobDesc, job: Seq<char>, j: JobDefinition, stage: JobStage)
    requires
        d.tasks@.contains_key(stage.task_class@) ==> d.tasks@[stage.task_class@].input.wf(),
    ensures
        d.stage_problem(job, j, stage) is None <==> d.stage_valid(j, stage),
{
    if d.tasks@.contains_key(stage.task_class@) && stage.spawn_task is None {
        let t = d.tasks@[stage.task_class@];
        let s = t.input.entries();
        let f = input_problem_fn(stage.task_class@, job, j);
        let p = |name: Seq<char>, input: TaskInput|
            input.source_type == TaskInputSourceType::Parameter ==> j.input@.contains_key(name);
        lemma_first_message_none(s, f);
        lemma_entries_forall(s, p);
        if d.stage_problem(job, j, stage) is None {
            assert forall|i: int| 0 <= i < s.len() implies #[trigger] p(s[i].0, s[i].1) by {
                assert(f(s[i]) is None);
            }
            assert forall|name: Seq<char>|
                #[trigger] t.input@.contains_key(name) && t.input@[name].source_type
                    == TaskInputSourceType::Parameter implies j.input@.contains_key(name) by {
                assert(p(name, t.input@[name]));
            }
        }
        if d.stage_valid(j, stage) {
            assert forall|k: Seq<char>| #[trigger] t.input@.contains_key(k) implies p(k, t.input@[k]) by {
            }
            assert forall|i: int| 0 <= i < s.len() implies #[trigger] f(s[i]) is None by {
                assert(p(s[i].0, s[i].1));
            }
        }
    }
}

proof fn lemma_job_problem(d: TaskJobDesc, job: Seq<char>, j: JobDefinition)
    requires
        d.wf(),
    ensures
        d.job_problem(job, j) is None <==> (forall|i: int|
            0 <= i < j.stages@.len() ==> d.stage_valid(j, #[trigger] j.stages@[i])),
{
    let sf = d.stage_problem_fn(job, j);
    lemma_first_message_none(j.stages@, sf);
    if d.job_problem(job, j) is None {
        assert forall|i: int| 0 <= i < j.stages@.len() implies d.stage_valid(
            j,
            #[trigger] j.stages@[i],
        ) by {
            assert(sf(j.stages@[i]) is None);
            lemma_stage_problem(d, job, j, j.stages@[i]);
        }
    }
    if forall|i: int| 0 <= i < j.stages@.len() ==> d.stage_valid(j, #[trigger] j.stages@[i]) {
        assert forall|i: int| 0 <= i < j.stages@.len() implies #[trigger] sf(j.stages@[i]) is None by {
            lemma_stage_problem(d, job, j, j.stages@[i]);
        }
    }
}

/// The validation finds no problem exactly when the description is valid.
pub proof fn lemma_no_problem_iff_valid(d: TaskJobDesc)
    requires
        d.wf(),
    ensures
        d.first_problem() is None <==> d.valid(),
{
    let ts = d.tasks.entries();
    let tf = task_problem_fn();
    let tp = |name: Seq<char>, t: TaskDefinition| task_valid(t);
    lemma_first_message_none(ts, tf);
    lemma_entries_forall(ts, tp);
    let js = d.jobs.entries();
    let jf = d.job_problem_fn();
    let jp = |name: Seq<char>, j: JobDefinition|
        forall|i: int| 0 <= i < j.stages@.len() ==> d.stage_valid(j, #[trigger] j.stages@[i]);
    lemma_first_message_none(js, jf);
    lemma_entries_forall(js, jp);
    if d.first_problem() is None {
        assert forall|i: int| 0 <= i < ts.len() implies #[trigger] tp(ts[i].0, ts[i].1) by {
            assert(tf(ts[i]) is None);
            lemma_task_problem(ts[i].0, ts[i].1);
        }
        assert forall|i: int| 0 <= i < js.len() implies #[trigger] jp(js[i].0, js[i].1) by {
            assert(jf(js[i]) is None);
            lemma_job_problem(d, js[i].0, js[i].1);
        }
        assert forall|name: Seq<char>, i: int|
            #[trigger] d.jobs@.contains_key(name) && 0 <= i < d.jobs@[name].stages@.len()
            implies d.stage_valid(d.jobs@[name], #[trigger] d.jobs@[name].stages@[i]) by {
            assert(jp(name, d.jobs@[name]));
        }
        assert forall|name: Seq<char>| #[trigger] d.tasks@.contains_key(name) implies task_valid(
            d.tasks@[name],
        ) by {
            assert(tp(name, d.tasks@[name]));
        }
    }
    if d.valid() {
        assert forall|k: Seq<char>| #[trigger] d.jobs@.contains_key(k) implies jp(k, d.jobs@[k]) by {
            let j = d.jobs@[k];
            assert forall|i: int| 0 <= i < j.stages@.len() implies d.stage_valid(
                j,
                #[trigger] j.stages@[i],
            ) by {
                assert(d.stage_valid(d.jobs@[k], d.jobs@[k].stages@[i]));
            }
        }
        assert forall|k: Seq<char>| #[trigger] d.tasks@.contains_key(k) implies tp(k, d.tasks@[k]) by {
        }
        assert forall|i: int| 0 <= i < ts.len() implies #[trigger] tf(ts[i]) is None by {
            assert(tp(ts[i].0, ts[i].1));
            lemma_task_problem(ts[i].0, ts[i].1);
        }
        assert forall|i: int| 0 <= i < js.len() implies #[trigger] jf(js[i]) is None by {
            lemma_map_of_entries_distinct(js, i);
            assert(d.jobs@.contains_key(js[i].0));
            assert(jp(js[i].0, d.jobs@[js[i].0]));
            lemma_job_problem(d, js[i].0, js[i].1);
        }
    }
}

/// A description is not valid when an argument of one of its tasks holds, after
/// text without an opening brace, a placeholder `{{x}}` whose identifier, of any
/// length, names no input of the task; `is_valid` then returns an error.
pub proof fn lemma_unknown_placeholder_invalid(
    d: TaskJobDesc,
    name: Seq<char>,
    i: int,
    a: Seq<char>,
    x: Seq<char>,
    b: Seq<char>,
)
    requires
        d.tasks@.contains_key(name),
        0 <= i < d.tasks@[name].exec_args@.len(),
        d.tasks@[name].exec_args@[i]@ == a + seq!['{', '{'] + x + seq!['}', '}'] + b,
        forall|j: int| 0 <= j < a.len() ==> a[j] != '{',
        x.len() > 0,
        forall|j: int| 0 <= j < x.len() ==> is_identifier_char(#[trigger] x[j]),
        !is_identifier_char('}'),
        !d.tasks@[name].input@.contains_key(x),
    ensures
        !d.valid(),
{
    lemma_placeholder_found(a, x, b);
    let t = d.tasks@[name];
    assert(placeholders(t.exec_args@[i]@)[0] == x);
    assert(!task_valid(t));
}

// ---------------------------------------------------------------------------
// The validation.

fn no_command_text(task: &String) -> (m: String)
    ensures
        m@ == no_command_message(task@),
{
    String::from_str("Task ").concat(task.as_str()).concat(" has no exec_command")
}

fn unknown_identifier_text(task: &String, identifier: &String) -> (m: String)
    ensures
        m@ == unknown_identifier_message(task@, identifier@),
{
    String::from_str("Task ").concat(task.as_str()).concat(
        " has an invalid input identifier in exec_args: ",
    ).concat(identifier.as_str())
}

fn unknown_spawn_task_text(job: &String, spawn_task: &String) -> (m: String)
    ensures
        m@ == unknown_spawn_task_message(job@, spawn_task@),
{
    String::from_str("Job ").concat(job.as_str()).concat(
        " has an invalid spawn task identifier: ",
    ).concat(spawn_task.as_str())
}

fn missing_parameter_text(task_class: &String, job: &String, input: &String) -> (m: String)
    ensures
        m@ == missing_parameter_message(task_class@, job@, input@),
{
    String::from_str("Task ").concat(task_class.as_str()).concat(" requires input parameter ").concat(
        job.as_str(),
    ).concat(" but job ").concat(input.as_str()).concat(" does not provide it.")
}

/// Returns the first problem among the placeholders of an argument of a task.
fn check_argument(task: &String, t: &TaskDefinition, arg: &String) -> (m: Option<String>)
    ensures
        m.deep_view() == argument_problem(task@, *t, *arg),
{
    let ids = placeholder_identifiers(arg.as_str());
    let ghost s = placeholders(arg@);
    let ghost f = identifier_problem_fn(task@, *t);
    let mut k: usize = 0;
    while k < ids.len()
        invariant
            ids.deep_view() == s,
            s == placeholders(arg@),
            f == identifier_problem_fn(task@, *t),
            k <= ids@.len(),
            forall|j: int| 0 <= j < k ==> #[trigger] f(s[j]) is None,
        decreases ids@.len() - k,
    {
        assert(s[k as int] == ids[k as int]@);
        if !t.input.contains_key(&ids[k]) {
            proof {
                lemma_first_message_at(s, f, k as int);
            }
            return Some(unknown_identifier_text(task, &ids[k]));
        }
        assert(f(s[k as int]) is None);
        k = k + 1;
    }
    proof {
        lemma_first_message_none(s, f);
    }
    None
}

/// Returns the first problem of a task.
fn check_task(task: &String, t: &TaskDefinition) -> (m: Option<String>)
    ensures
        m.deep_view() == task_problem(task@, *t),
{
    if t.exec_command.as_str().is_empty() {
        return Some(no_command_text(task));
    }
    let ghost s = t.exec_args@;
    let ghost f = argument_problem_fn(task@, *t);
    let mut k: usize = 0;
    while k < t.exec_args.len()
        invariant
            s == t.exec_args@,
            f == argument_problem_fn(task@, *t),
            t.exec_command@.len() > 0,
            k <= s.len(),
            forall|j: int| 0 <= j < k ==> #[trigger] f(s[j]) is None,
        decreases s.len() - k,
    {
        let found = check_argument(task, t, &t.exec_args[k]);
        if found.is_some() {
            proof {
                lemma_first_message_at(s, f, k as int);
            }
            return found;
        }
        assert(f(s[k as int]) is None);
        k = k + 1;
    }
    proof {
        lemma_first_message_none(s, f);
    }
    None
}

impl TaskJobDesc {
    /// Returns the first problem of a stage of a job.
    fn check_stage(&self, job: &String, j: &JobDefinition, stage: &JobStage) -> (m: Option<String>)
        ensures
            m.deep_view() == self.stage_problem(job@, *j, *stage),
            m is None <==> self.stage_valid(*j, *stage),
    {
        let task_def = match self.tasks.get(&stage.task_class) {
            Some(task_def) => task_def,
            None => {
                return Some(String::from_str("No task definition for the task class 'task'"));
            },
        };
        proof {
            use_type_invariant(&task_def.input);
            lemma_stage_problem(*self, job@, *j, *stage);
        }
        match &stage.spawn_task {
            Some(spawn_task) => {
                if self.tasks.contains_key(spawn_task) {
                    None
                } else {
                    Some(unknown_spawn_task_text(job, spawn_task))
                }
            },
            None => {
                let ghost s = task_def.input.entries();
                let ghost f = input_problem_fn(stage.task_class@, job@, *j);
                let mut k: usize = 0;
                while k < task_def.input.len()
                    invariant
                        s == task_def.input.entries(),
                        f == input_problem_fn(stage.task_class@, job@, *j),
                        self.tasks@.contains_key(stage.task_class@),
                        *task_def == self.tasks@[stage.task_class@],
                        stage.spawn_task is None,
                        self.stage_problem(job@, *j, *stage) is None <==> self.stage_valid(
                            *j,
                            *stage,
                        ),
                        k <= s.len(),
                        forall|i: int| 0 <= i < k ==> #[trigger] f(s[i]) is None,
                    decreases s.len() - k,
                {
                    let (input_name, input) = task_def.input.entry_at(k);
                    if input.source_type == TaskInputSourceType::Parameter && !j.input.contains_key(
                        input_name,
                    ) {
                        proof {
                            lemma_first_message_at(s, f, k as int);
                        }
                        return Some(missing_parameter_text(&stage.task_class, job, input_name));
                    }
                    assert(f(s[k as int]) is None);
                    k = k + 1;
                }
                proof {
                    lemma_first_message_none(s, f);
                }
                None
            },
        }
    }

    /// Returns the first problem among the stages of a job.
    fn check_job(&self, job: &String, j: &JobDefinition) -> (m: Option<String>)
        ensures
            m.deep_view() == self.job_problem(job@, *j),
            m is None <==> self.job_stages_valid(*j),
    {
        let ghost s = j.stages@;
        let ghost f = self.stage_problem_fn(job@, *j);
        let mut k: usize = 0;
        while k < j.stages.len()
            invariant
                s == j.stages@,
                f == self.stage_problem_fn(job@, *j),
                k <= s.len(),
                forall|i: int| 0 <= i < k ==> #[trigger] f(s[i]) is None,
                forall|i: int| 0 <= i < k ==> self.stage_valid(*j, #[trigger] s[i]),
            decreases s.len() - k,
        {
            let found = self.check_stage(job, j, &j.stages[k]);
            if found.is_some() {
                assert(!self.stage_valid(*j, s[k as int]));
                proof {
                    lemma_first_message_at(s, f, k as int);
                }
                return found;
            }
            assert(f(s[k as int]) is None);
            k = k + 1;
        }
        proof {
            lemma_first_message_none(s, f);
        }
        None
    }

    /// Checks if the description is valid: every task has a command whose
    /// placeholders all name inputs of the task, and every stage of every job names
    /// a task class and, if given, a spawn task that are tasks of the description;
    /// a stage without a spawn task needs the job to have every parameter input of
    /// its task class. The error is the first problem found, tasks before jobs.
    pub fn is_valid(&self) -> (res: Result<(), Error>)
        ensures
            match self.first_problem() {
                None => res is Ok,
                Some(m) => res matches Err(Error::InvalidConfigError(msg)) && msg@ == m,
            },
            res is Ok <==> self.valid(),
    {
        proof {
            use_type_invariant(&self.tasks);
            use_type_invariant(&self.jobs);
        }
        let ghost ts = self.tasks.entries();
        let ghost tf = task_problem_fn();
        let mut k: usize = 0;
        while k < self.tasks.len()
            invariant
                ts == self.tasks.entries(),
                tf == task_problem_fn(),
                self.tasks.wf(),
                k <= ts.len(),
                forall|i: int| 0 <= i < k ==> #[trigger] tf(ts[i]) is None,
            decreases ts.len() - k,
        {
            let (name, task) = self.tasks.entry_at(k);
            match check_task(name, task) {
                Some(msg) => {
                    proof {
                        lemma_first_message_at(ts, tf, k as int);
                        lemma_task_problem(ts[k as int].0, ts[k as int].1);
                        lemma_map_of_entries_distinct(ts, k as int);
                        assert(self.tasks@.contains_key(ts[k as int].0));
                    }
                    return Err(Error::InvalidConfigError(msg));
                },
                None => {},
            }
            assert(tf(ts[k as int]) is None);
            k = k + 1;
        }
        proof {
            lemma_first_message_none(ts, tf);
            let tp = |name: Seq<char>, t: TaskDefinition| task_valid(t);
            lemma_entries_forall(ts, tp);
            assert forall|i: int| 0 <= i < ts.len() implies #[trigger] tp(ts[i].0, ts[i].1) by {
                assert(tf(ts[i]) is None);
                lemma_task_problem(ts[i].0, ts[i].1);
            }
            assert forall|name: Seq<char>| #[trigger]
                self.tasks@.contains_key(name) implies task_valid(self.tasks@[name]) by {
                assert(tp(name, self.tasks@[name]));
            }
        }
        let ghost js = self.jobs.entries();
        let ghost jf = self.job_problem_fn();
        let mut k: usize = 0;
        while k < self.jobs.len()
            invariant
                js == self.jobs.entries(),
                jf == self.job_problem_fn(),
                first_message(self.tasks.entries(), task_problem_fn()) is None,
                forall|name: Seq<char>| #[trigger]
                    self.tasks@.contains_key(name) ==> task_valid(self.tasks@[name]),
                self.jobs.wf(),
                k <= js.len(),
                forall|i: int| 0 <= i < k ==> #[trigger] jf(js[i]) is None,
                forall|i: int| 0 <= i < k ==> self.job_stages_valid(#[trigger] js[i].1),
            decreases js.len() - k,
        {
            let (name, job) = self.jobs.entry_at(k);
            match self.check_job(name, job) {
                Some(msg) => {
                    proof {
                        lemma_first_message_at(js, jf, k as int);
                        lemma_map_of_entries_distinct(js, k as int);
                        let jn = js[k as int].0;
                        let n = choose|n: int|
                            0 <= n < job.stages@.len() && !self.stage_valid(*job, job.stages@[n]);
                        assert(self.jobs@.contains_key(jn));
                        assert(!self.stage_valid(self.jobs@[jn], self.jobs@[jn].stages@[n]));
                    }
                    return Err(Error::InvalidConfigError(msg));
                },
                None => {},
            }
            assert(jf(js[k as int]) is None);
            k = k + 1;
        }
        proof {
            lemma_first_message_none(js, jf);
            let jp = |name: Seq<char>, j: JobDefinition| self.job_stages_valid(j);
            lemma_entries_forall(js, jp);
            assert forall|i: int| 0 <= i < js.len() implies #[trigger] jp(js[i].0, js[i].1) by {
                assert(self.job_stages_valid(js[i].1));
            }
            assert forall|name: Seq<char>, n: int|
                #[trigger] self.jobs@.contains_key(name) && 0 <= n < self.jobs@[name].stages@.len()
                implies self.stage_valid(self.jobs@[name], #[trigger] self.jobs@[name].stages@[n]) by {
                assert(jp(name, self.jobs@[name]));
            }
        }
        Ok(())
    }
}

} // verus!
