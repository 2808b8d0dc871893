use vstd::prelude::*;
use crate::text::{joined, same_text};

verus! {

/// Retention below this (`0.1`) marks a memory as archived.
pub const ARCHIVE_RETENTION: i64 = 100_000;

/// Where a memory applies.
#[derive(Clone, Copy, Debug, PartialEq, Eq, Structural)]
pub enum MemoryScope {
    Global,
    Project,
    Session,
    Agent,
}

/// What kind of knowledge a memory holds.
#[derive(Clone, Copy, Debug, PartialEq, Eq, Structural)]
pub enum MemoryCategory {
    Fact,
    Preference,
    Decision,
    ProjectKnowledge,
    CodePattern,
    ErrorLesson,
    Workflow,
}

impl MemoryScope {
    /// The name under which the scope is stored and written.
    pub open spec fn name(self) -> Seq<char> {
        match self {
            MemoryScope::Global => "Global"@,
            MemoryScope::Project => "Project"@,
            MemoryScope::Session => "Session"@,
            MemoryScope::Agent => "Agent"@,
        }
    }

    /// The scope whose name is `s`, if any.
    pub open spec fn named(s: Seq<char>) -> Option<MemoryScope> {
        if s == "Global"@ {
            Some(MemoryScope::Global)
        } else if s == "Project"@ {
            Some(MemoryScope::Project)
        } else if s == "Session"@ {
            Some(MemoryScope::Session)
        } else if s == "Agent"@ {
            Some(MemoryScope::Agent)
        } else {
            None
        }
    }

    pub fn as_str(&self) -> (r: &'static str)
        ensures
            r@ == self.name(),
    {
        match self {
            MemoryScope::Global => "Global",
            MemoryScope::Project => "Project",
            MemoryScope::Session => "Session",
            MemoryScope::Agent => "Agent",
        }
    }

    /// Reads a scope from its name; an unknown name is refused with a message.
    pub fn parse(s: &str) -> (r: Result<MemoryScope, String>)
        ensures
            match r {
                Ok(x) => MemoryScope::named(s@) == Some(x),
                Err(m) => MemoryScope::named(s@) is None && m@ == "unknown memory scope: "@ + s@,
            },
    {
        if same_text(s, "Global") {
            Ok(MemoryScope::Global)
        } else if same_text(s, "Project") {
            Ok(MemoryScope::Project)
        } else if same_text(s, "Session") {
            Ok(MemoryScope::Session)
        } else if same_text(s, "Agent") {
            Ok(MemoryScope::Agent)
        } else {
            Err(joined("unknown memory scope: ", s))
        }
    }
}

impl MemoryCategory {
    /// The name under which the category is stored and written.
    pub open spec fn name(self) -> Seq<char> {
        match self {
            MemoryCategory::Fact => "Fact"@,
            MemoryCategory::Preference => "Preference"@,
            MemoryCategory::Decision => "Decision"@,
            MemoryCategory::ProjectKnowledge => "ProjectKnowledge"@,
            MemoryCategory::CodePattern => "CodePattern"@,
            MemoryCategory::ErrorLesson => "ErrorLesson"@,
            MemoryCategory::Workflow => "Workflow"@,
        }
    }

    /// The category whose name is `s`, if any.
    pub open spec fn named(s: Seq<char>) -> Option<MemoryCategory> {
        if s == "Fact"@ {
            Some(MemoryCategory::Fact)
        } else if s == "Preference"@ {
            Some(MemoryCategory::Preference)
        } else if s == "Decision"@ {
            Some(MemoryCategory::Decision)
        } else if s == "ProjectKnowledge"@ {
            Some(MemoryCategory::ProjectKnowledge)
        } else if s == "CodePattern"@ {
            Some(MemoryCategory::CodePattern)
        } else if s == "ErrorLesson"@ {
            Some(MemoryCategory::ErrorLesson)
        } else if s == "Workflow"@ {
            Some(MemoryCategory::Workflow)
        } else {
            None
        }
    }

    pub fn as_str(&self) -> (r: &'static str)
        ensures
            r@ == self.name(),
    {
        match self {
            MemoryCategory::Fact => "Fact",
            MemoryCategory::Preference => "Preference",
            MemoryCategory::Decision => "Decision",
            MemoryCategory::ProjectKnowledge => "ProjectKnowledge",
            MemoryCategory::CodePattern => "CodePattern",
            MemoryCategory::ErrorLesson => "ErrorLesson",
            MemoryCategory::Workflow => "Workflow",
        }
    }

    /// Reads a category from its name; an unknown name is refused with a message.
    pub fn parse(s: &str) -> (r: Result<MemoryCategory, String>)
        ensures
            match r {
                Ok(x) => MemoryCategory::named(s@) == Some(x),
                Err(m) => MemoryCategory::named(s@) is None && m@ == "unknown memory category: "@
                    + s@,
            },
    {
        if same_text(s, "Fact") {
            Ok(MemoryCategory::Fact)
        } else if same_text(s, "Preference") {
            Ok(MemoryCategory::Preference)
        } else if same_text(s, "Decision") {
            Ok(MemoryCategory::Decision)
        } else if same_text(s, "ProjectKnowledge") {
            Ok(MemoryCategory::ProjectKnowledge)
        } else if same_text(s, "CodePattern") {
            Ok(MemoryCategory::CodePattern)
        } else if same_text(s, "ErrorLesson") {
            Ok(MemoryCategory::ErrorLesson)
        } else if same_text(s, "Workflow") {
            Ok(MemoryCategory::Workflow)
        } else {
            Err(joined("unknown memory category: ", s))
        }
    }
}

/// Reading the name of a scope gives the scope back.
pub proof fn lemma_scope_name_round_trip(x: MemoryScope)
    ensures
        MemoryScope::named(x.name()) == Some(x),
{
    reveal_strlit("Global");
    reveal_strlit("Project");
    reveal_strlit("Session");
    reveal_strlit("Agent");
    assert("Global"@ != "Project"@ && "Global"@ != "Session"@ && "Global"@ != "Agent"@) by {
        assert("Global"@[0] != "Project"@[0]);
        assert("Global"@[0] != "Session"@[0]);
    }
    assert("Project"@ != "Session"@) by {
        assert("Project"@[0] != "Session"@[0]);
    }
    assert("Project"@[0] != "Agent"@[0]);
    assert("Session"@[0] != "Agent"@[0]);
}

/// Reading the name of a category gives the category back.
pub proof fn lemma_category_name_round_trip(x: MemoryCategory)
    ensures
        MemoryCategory::named(x.name()) == Some(x),
{
    reveal_strlit("Fact");
    reveal_strlit("Preference");
    reveal_strlit("Decision");
    reveal_strlit("ProjectKnowledge");
    reveal_strlit("CodePattern");
    reveal_strlit("ErrorLesson");
    reveal_strlit("Workflow");
    assert("Fact"@[0] != "Preference"@[0]);
    assert("Fact"@[0] != "Decision"@[0]);
    assert("Fact"@[0] != "ProjectKnowledge"@[0]);
    assert("Fact"@[0] != "CodePattern"@[0]);
    assert("Fact"@[0] != "ErrorLesson"@[0]);
    assert("Fact"@[0] != "Workflow"@[0]);
    assert("Preference"@[0] != "Decision"@[0]);
    assert("Preference"@[2] != "ProjectKnowledge"@[2]);
    assert("Preference"@[0] != "CodePattern"@[0]);
    assert("Preference"@[0] != "ErrorLesson"@[0]);
    assert("Preference"@[0] != "Workflow"@[0]);
    assert("Decision"@[0] != "ProjectKnowledge"@[0]);
    assert("Decision"@[0] != "CodePattern"@[0]);
    assert("Decision"@[0] != "ErrorLesson"@[0]);
    assert("Decision"@[0] != "Workflow"@[0]);
    assert("ProjectKnowledge"@[0] != "CodePattern"@[0]);
    assert("ProjectKnowledge"@[0] != "ErrorLesson"@[0]);
    assert("ProjectKnowledge"@[0] != "Workflow"@[0]);
    assert("CodePattern"@[0] != "ErrorLesson"@[0]);
    assert("CodePattern"@[0] != "Workflow"@[0]);
    assert("ErrorLesson"@[0] != "Workflow"@[0]);
}

/// A stored memory. Scores are counted in millionths (see `fixed::SCALE`).
#[derive(Debug)]
pub struct Memory {
    pub id: String,
    pub content: String,
    pub category: String,
    pub scope: String,
    pub project_id: Option<String>,
    pub agent_id: Option<String>,
    pub source_session: String,
    pub created_at: i64,
    pub updated_at: i64,
    pub last_accessed_at: i64,
    pub access_count: i32,
    pub importance_score: i64,
    pub retention_factor: i64,
    pub entities: String,
    pub vector_id: i64,
    pub metadata: String,
}

impl Memory {
    /// A memory whose retention has decayed below `0.1` is archived.
    pub open spec fn archived(&self) -> bool {
        self.retention_factor < ARCHIVE_RETENTION
    }

    #[verifier::when_used_as_spec(archived)]
    pub fn is_archived(&self) -> (r: bool)
        ensures
            r == self.archived(),
    {
        self.retention_factor < ARCHIVE_RETENTION
    }
}

} // verus!
