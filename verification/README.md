# sr_core

The logic of `sr`, an AI-assisted git workflow, as a library verified with
Verus, and the `sr` program around it.

- `src/plan.rs`, `src/plan_laws.rs`: commit plans, the merge of commits that
  share files (`validate_plan`), and what that merge guarantees.
- `src/execute.rs`: applying a plan to a repository as a state machine;
  `execute_plan` drives it against a repository given as a function.
- `src/messages.rs`: checking commit messages against a regular expression.
- `src/rebase.rs`: the todo script and rewritten messages of an AI-planned rebase.
- `src/planning.rs`, `src/services.rs`, `src/prompts.rs`: the decisions and
  the requests around the AI backend.
- `src/cli.rs`: the decisions of the `commit`, `rebase`, `review` and
  `worktree` commands.
- `src/display.rs`: what the terminal shows, as styled lines.
- `src/text.rs`: string building blocks (messages, white space, ordering, numbers).
- `app/`: the program: git and GitHub through their commands, the AI backend
  through `agentspec-provider`, terminal output, JSON.
