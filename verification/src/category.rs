use vstd::prelude::*;

verus! {

/// Categories of token expenditure.
#[derive(Debug, Clone, Copy, PartialEq, Eq, Hash, Structural)]
pub enum TokenCategory {
    SystemPrompt,
    ContextLoad,
    ToolCall,
    ToolResult,
    ModelInference,
    MemoryRecall,
    Compilation,
    Abstraction,
    Delegation,
}

/// The name a category is shown by: its variant's name.
pub open spec fn category_name(c: TokenCategory) -> Seq<char> {
    match c {
        TokenCategory::SystemPrompt => "SystemPrompt"@,
        TokenCategory::ContextLoad => "ContextLoad"@,
        TokenCategory::ToolCall => "ToolCall"@,
        TokenCategory::ToolResult => "ToolResult"@,
        TokenCategory::ModelInference => "ModelInference"@,
        TokenCategory::MemoryRecall => "MemoryRecall"@,
        TokenCategory::Compilation => "Compilation"@,
        TokenCategory::Abstraction => "Abstraction"@,
        TokenCategory::Delegation => "Delegation"@,
    }
}

impl TokenCategory {
    /// The category's name, as it appears in reports and breakdowns.
    pub fn name(&self) -> (s: &'static str)
        ensures
            s@ == category_name(*self),
    {
        match self {
            TokenCategory::SystemPrompt => "SystemPrompt",
            TokenCategory::ContextLoad => "ContextLoad",
            TokenCategory::ToolCall => "ToolCall",
            TokenCategory::ToolResult => "ToolResult",
            TokenCategory::ModelInference => "ModelInference",
            TokenCategory::MemoryRecall => "MemoryRecall",
            TokenCategory::Compilation => "Compilation",
            TokenCategory::Abstraction => "Abstraction",
            TokenCategory::Delegation => "Delegation",
        }
    }

    /// The category's name as an owned string.
    pub fn to_string(&self) -> (s: String)
        ensures
            s@ == category_name(*self),
    {
        self.name().to_owned()
    }
}

} // verus!
