# takeln

Typed runtime for durable graph and DAG based agent workflows, with a verified
engine.

A workflow is a graph of named nodes. It runs sequentially, along edges that may
depend on the state, or as a DAG in parallel waves. Every transition is
checkpointed, so that a run can be resumed after a pause, after a crash, or with
the input that a yielded node waits for. Retries, budgets, time limits and
resource limits are enforced on the way.

## Layout

- `src/` is the engine, written and proved in Verus. It decides what a run does
  next and leaves the doing to its surroundings. A run is a value that passes
  through phases; each phase says what to do and takes the outcome back.
- `app/` is the asynchronous runtime around it: node traits, the loops that drive
  runs, emitters and metrics, and the stores (memory, SQLite, PostgreSQL).
- `tests/` drives the engine step by step on concrete values.

## What is proved

Each function of the engine has a contract that says what it returns or changes
for every input. What holds across several operations is proved beside them:

- a sequential run ends within its step limit, and a node is called no more often
  than its retry policy allows;
- the DAG builder refuses exactly the unknown names and the dependency cycles, and
  gives every node an identifier of its own; the run of an acyclic DAG does not
  deadlock, and where no node fails or yields it is done after as many waves as it
  has nodes, if not before; one that yielded is done once it is resumed;
- the results of a wave are merged in the order of the nodes, whatever the order
  in which they arrive;
- a checkpoint is read back as it was saved, a resumed run goes on where the saved
  one stood, and where nodes are deterministic it ends as the uninterrupted one;
- a node that is tried, resumed or recovered again keeps its execution identifier;
- an interrupt is claimed by one resume at a time, a failed resume can be tried
  again, and one that completed a step or reached the end is not run again.

Not proved, and trusted as documented: the clock, random numbers, identifiers,
digests and JSON texts, which come from outside crates. Sums of money are doubles
that the runtime adds up; the engine compares them.
