use vstd::prelude::*;

verus! {

/// Where a single asynchronous request stands.
pub enum TaskState<T, E> {
    /// No request outstanding, no result held.
    Idle,
    /// A request was started and its result has not arrived.
    Pending,
    /// The result arrived and has not been cleared.
    Ready(Result<T, E>),
}

/// What one call of `read_or_request` did.
#[derive(Debug, Clone, Copy, PartialEq, Eq, Structural)]
pub enum TaskStep {
    /// The binding was idle: the caller must start the operation now.
    Requested,
    /// The operation is still running: ask again on a later tick.
    Waiting,
    /// A result is held and can be read.
    Delivered,
}

/// The state after one tick, given what the running operation handed back
/// since the last one (`None`: nothing yet). A result that arrives while no
/// request is pending belongs to an abandoned request and is dropped.
pub open spec fn next_state<T, E>(s: TaskState<T, E>, arrived: Option<Result<T, E>>) -> TaskState<
    T,
    E,
> {
    match s {
        TaskState::Idle => TaskState::Pending,
        TaskState::Pending => match arrived {
            Some(r) => TaskState::Ready(r),
            None => TaskState::Pending,
        },
        TaskState::Ready(r) => TaskState::Ready(r),
    }
}

/// What the caller is told on that tick.
pub open spec fn step_of<T, E>(s: TaskState<T, E>, arrived: Option<Result<T, E>>) -> TaskStep {
    match s {
        TaskState::Idle => TaskStep::Requested,
        TaskState::Pending => if arrived is Some {
            TaskStep::Delivered
        } else {
            TaskStep::Waiting
        },
        TaskState::Ready(_) => TaskStep::Delivered,
    }
}

/// The state after a run of ticks.
pub open spec fn run<T, E>(s: TaskState<T, E>, arrivals: Seq<Option<Result<T, E>>>) -> TaskState<
    T,
    E,
>
    decreases arrivals.len(),
{
    if arrivals.len() == 0 {
        s
    } else {
        run(next_state(s, arrivals[0]), arrivals.drop_first())
    }
}

/// A single-slot holder for one asynchronous request at a time: idle, then
/// pending once the caller is told to start the operation, then ready when
/// its result arrives, and idle again only when cleared.
pub struct TaskBinding<T, E> {
    state: TaskState<T, E>,
}

impl<T, E> View for TaskBinding<T, E> {
    type V = TaskState<T, E>;

    closed spec fn view(&self) -> TaskState<T, E> {
        self.state
    }
}

impl<T, E> TaskBinding<T, E> {
    pub fn new() -> (r: TaskBinding<T, E>)
        ensures
            r@ == TaskState::<T, E>::Idle,
    {
        TaskBinding { state: TaskState::Idle }
    }

    /// One tick. From idle it moves to pending and asks the caller to start
    /// the operation; while pending it takes in a result that has arrived;
    /// once ready it keeps the result until `clear` or `take`.
    pub fn read_or_request(&mut self, arrived: Option<Result<T, E>>) -> (r: TaskStep)
        ensures
            final(self)@ == next_state(old(self)@, arrived),
            r == step_of(old(self)@, arrived),
    {
        match self.state {
            TaskState::Idle => {
                self.state = TaskState::Pending;
                TaskStep::Requested
            },
            TaskState::Pending => match arrived {
                Some(res) => {
                    self.state = TaskState::Ready(res);
                    TaskStep::Delivered
                },
                None => TaskStep::Waiting,
            },
            TaskState::Ready(_) => TaskStep::Delivered,
        }
    }

    /// The result held, if any.
    pub fn read(&self) -> (r: Option<&Result<T, E>>)
        ensures
            match r {
                Some(x) => self@ == TaskState::Ready(*x),
                None => !(self@ is Ready),
            },
    {
        match &self.state {
            TaskState::Ready(res) => Some(res),
            _ => None,
        }
    }

    pub fn is_idle(&self) -> (r: bool)
        ensures
            r == (self@ is Idle),
    {
        match self.state {
            TaskState::Idle => true,
            _ => false,
        }
    }

    pub fn is_pending(&self) -> (r: bool)
        ensures
            r == (self@ is Pending),
    {
        match self.state {
            TaskState::Pending => true,
            _ => false,
        }
    }

    /// Back to idle, whatever the state; a pending or held result is dropped.
    pub fn clear(&mut self)
        ensures
            final(self)@ == TaskState::<T, E>::Idle,
    {
        self.state = TaskState::Idle;
    }

    /// Hands out a held result and goes back to idle; in any other state
    /// returns `None` and changes nothing.
    pub fn take(&mut self) -> (r: Option<Result<T, E>>)
        ensures
            match old(self)@ {
                TaskState::Ready(x) => r == Some(x) && final(self)@ == TaskState::<T, E>::Idle,
                _ => r is None && final(self)@ == old(self)@,
            },
    {
        let mut s = TaskState::Idle;
        std::mem::swap(&mut s, &mut self.state);
        match s {
            TaskState::Ready(x) => Some(x),
            other => {
                self.state = other;
                None
            },
        }
    }
}

/// `count` ticks on which nothing arrives.
pub open spec fn quiet_ticks<T, E>(count: nat) -> Seq<Option<Result<T, E>>> {
    Seq::new(count, |i: int| None::<Result<T, E>>)
}

/// A run of ticks from idle: the first tick asks for the operation, any
/// number of ticks pass with nothing arrived, then result `x` arrives. The
/// binding then holds `x` whatever comes on later ticks, and every later tick
/// delivers it; once cleared, the next tick asks for a new operation.
pub proof fn lemma_request_then_deliver<T, E>(
    first: Option<Result<T, E>>,
    waits: nat,
    x: Result<T, E>,
    later: Seq<Option<Result<T, E>>>,
    next: Option<Result<T, E>>,
)
    ensures
        next_state(TaskState::Idle, first) == TaskState::<T, E>::Pending,
        step_of(TaskState::Idle, first) == TaskStep::Requested,
        run(TaskState::Pending, quiet_ticks::<T, E>(waits)) == TaskState::<T, E>::Pending,
        run(TaskState::Idle, seq![first] + quiet_ticks::<T, E>(waits) + seq![Some(x)])
            == TaskState::Ready(x),
        run(TaskState::Idle, seq![first] + quiet_ticks::<T, E>(waits) + seq![Some(x)] + later)
            == TaskState::Ready(x),
        forall|i: int|
            0 <= i <= later.len() ==> run(TaskState::Ready(x), #[trigger] later.take(i))
                == TaskState::Ready(x),
        forall|i: int|
            0 <= i < later.len() ==> step_of(run(TaskState::Ready(x), later.take(i)), #[trigger] later[i])
                == TaskStep::Delivered,
        next_state(TaskState::Idle, next) == TaskState::<T, E>::Pending,
        step_of(TaskState::Idle, next) == TaskStep::Requested,
{
    lemma_quiet_stays_pending::<T, E>(waits);
    let evs = seq![first] + quiet_ticks::<T, E>(waits) + seq![Some(x)];
    lemma_run_append(TaskState::Idle, seq![first], quiet_ticks::<T, E>(waits));
    lemma_run_append(TaskState::Idle, seq![first] + quiet_ticks::<T, E>(waits), seq![Some(x)]);
    lemma_run_append(TaskState::Idle, evs, later);
    assert(run(TaskState::Idle, seq![first]) == run(TaskState::<T, E>::Pending, seq![first].drop_first()));
    assert(seq![first].drop_first() =~= Seq::<Option<Result<T, E>>>::empty());
    assert(run(TaskState::Pending, seq![Some(x)]) == run(TaskState::Ready(x), seq![Some(x)].drop_first()));
    assert(seq![Some(x)].drop_first() =~= Seq::<Option<Result<T, E>>>::empty());
    lemma_ready_stays(x, later);
    assert forall|i: int| 0 <= i <= later.len() implies run(TaskState::Ready(x), #[trigger] later.take(i))
        == TaskState::Ready(x) by {
        lemma_ready_stays(x, later.take(i));
    }
}

proof fn lemma_run_append<T, E>(
    s: TaskState<T, E>,
    a: Seq<Option<Result<T, E>>>,
    b: Seq<Option<Result<T, E>>>,
)
    ensures
        run(s, a + b) == run(run(s, a), b),
    decreases a.len(),
{
    if a.len() == 0 {
        assert(a + b =~= b);
    } else {
        assert((a + b)[0] == a[0]);
        assert((a + b).drop_first() =~= a.drop_first() + b);
        lemma_run_append(next_state(s, a[0]), a.drop_first(), b);
    }
}

proof fn lemma_quiet_stays_pending<T, E>(count: nat)
    ensures
        run(TaskState::Pending, quiet_ticks::<T, E>(count)) == TaskState::<T, E>::Pending,
    decreases count,
{
    if count > 0 {
        assert(quiet_ticks::<T, E>(count).drop_first() =~= quiet_ticks::<T, E>((count - 1) as nat));
        lemma_quiet_stays_pending::<T, E>((count - 1) as nat);
    }
}

proof fn lemma_ready_stays<T, E>(x: Result<T, E>, evs: Seq<Option<Result<T, E>>>)
    ensures
        run(TaskState::Ready(x), evs) == TaskState::Ready(x),
    decreases evs.len(),
{
    if evs.len() > 0 {
        lemma_ready_stays(x, evs.drop_first());
    }
}

} // verus!
