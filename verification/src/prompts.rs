//! The fixed texts that the AI requests are built from.

use vstd::prelude::*;

verus! {

/// System prompt for suggesting a branch name.
pub const BRANCH_SYSTEM_PROMPT: &'static str = "You name git branches. Reply with a single branch name in the form <type>/<short-kebab-description>, for example feat/add-login or fix/null-pointer-in-parser. Reply with the name only, no explanation, no quotes.";

/// System prompt for writing a pull request.
pub const PR_SYSTEM_PROMPT: &'static str = "You write pull request descriptions. Given the commits and the diff of a branch, produce a concise title in conventional commit style and a Markdown body that explains what changed and why. Answer with JSON that matches the schema.";

/// JSON schema of a pull request title and body.
pub const PR_SCHEMA: &'static str = "{\"type\":\"object\",\"properties\":{\"title\":{\"type\":\"string\"},\"body\":{\"type\":\"string\"}},\"required\":[\"title\",\"body\"]}";

/// System prompt for reviewing a local diff.
pub const REVIEW_SYSTEM_PROMPT: &'static str = "You are a careful senior engineer. Examine the diff for bugs, security problems, missing tests and unclear code. Be specific: cite files and lines, explain the problem and suggest a fix. Say so plainly when the change looks good.";

/// System prompt for reviewing a pull request.
pub const PR_REVIEW_SYSTEM_PROMPT: &'static str = "You are a careful senior engineer examining pull requests. Examine the change for correctness, security, tests and clarity, taking the title and description into account. Be specific: cite files and lines, explain each problem and suggest a fix. End with an overall assessment.";

/// JSON schema of a commit plan.
pub const COMMIT_SCHEMA: &'static str = "{\"type\":\"object\",\"properties\":{\"commits\":{\"type\":\"array\",\"items\":{\"type\":\"object\",\"properties\":{\"order\":{\"type\":\"integer\"},\"message\":{\"type\":\"string\"},\"body\":{\"type\":\"string\"},\"footer\":{\"type\":\"string\"},\"files\":{\"type\":\"array\",\"items\":{\"type\":\"string\"}}},\"required\":[\"message\",\"files\"]}}},\"required\":[\"commits\"]}";

/// JSON schema of a rebase plan.
pub const REBASE_SCHEMA: &'static str = "{\"type\":\"object\",\"properties\":{\"commits\":{\"type\":\"array\",\"items\":{\"type\":\"object\",\"properties\":{\"original_sha\":{\"type\":\"string\"},\"action\":{\"type\":\"string\",\"enum\":[\"pick\",\"reword\",\"squash\",\"drop\"]},\"message\":{\"type\":\"string\"},\"body\":{\"type\":\"string\"},\"footer\":{\"type\":\"string\"}},\"required\":[\"original_sha\",\"action\",\"message\"]}}},\"required\":[\"commits\"]}";

} // verus!
