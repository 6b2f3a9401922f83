//! Names, descriptions and argument schemas of the tools.
use vstd::prelude::*;
use crate::json::{JVal, Json};
use crate::tools::computer::{Click, FocusWindow, GetMouse, KeyCombo, Scroll, TypeText};
use crate::tools::desktop::{ClipboardGet, CurrentWindow, Notification, OpenApp, OpenUrl, Screenshot};
use crate::tools::dispatch::DispatchAgent;
use crate::tools::memory::{MemctlIngest, MemctlRecall};
use crate::tools::retrieval::{Rerank, SemanticSearch};
use crate::tools::search::WebSearch;
use crate::tools::vault::{VaultFind, VaultRecent};
use crate::tools::vision::LookAtScreen;

verus! {

impl Click {
    /// The schema of the arguments.
    pub open spec fn parameters() -> JVal {
        let p_x = JVal::object()
            .with("type"@, JVal::Str("integer"@))
            .with("minimum"@, JVal::UInt(0))
            .with("description"@, JVal::Str("X screen coordinate."@));
        let p_y = JVal::object()
            .with("type"@, JVal::Str("integer"@))
            .with("minimum"@, JVal::UInt(0))
            .with("description"@, JVal::Str("Y screen coordinate."@));
        let p_button = JVal::object()
            .with("type"@, JVal::Str("string"@))
            .with("enum"@, JVal::array().plus(JVal::Str("left"@)).plus(JVal::Str("right"@)).plus(JVal::Str("middle"@)))
            .with("description"@, JVal::Str("Mouse button (default 'left')."@));
        let p_double = JVal::object()
            .with("type"@, JVal::Str("boolean"@))
            .with("description"@, JVal::Str("If true, performs a double-click."@));
        JVal::object()
            .with("type"@, JVal::Str("object"@))
            .with("properties"@, JVal::object().with("x"@, p_x).with("y"@, p_y).with("button"@, p_button).with("double"@, p_double))
            .with("required"@, JVal::array().plus(JVal::Str("x"@)).plus(JVal::Str("y"@)))
    }

    /// The name under which the tool is called.
    pub fn name(&self) -> (r: &'static str)
        ensures
            r@ == "click"@,
    {
        "click"
    }

    /// What the tool does.
    pub fn description(&self) -> (r: &'static str)
        ensures
            r@ == "Move the mouse to (x, y) and click. button='left'|'right'|'middle' (default left). Set double=true for a double-click. DESTRUCTIVE — will request user confirmation unless the safety mode is configured to bypass it."@,
    {
        "Move the mouse to (x, y) and click. button='left'|'right'|'middle' (default left). Set double=true for a double-click. DESTRUCTIVE — will request user confirmation unless the safety mode is configured to bypass it."
    }

    /// The schema of the arguments.
    pub fn schema(&self) -> (r: Json)
        ensures
            r@ == Self::parameters(),
    {
        let p_x = Json::object()
            .with_text("type", "integer")
            .with("minimum", Json::UInt(0))
            .with_text("description", "X screen coordinate.");
        let p_y = Json::object()
            .with_text("type", "integer")
            .with("minimum", Json::UInt(0))
            .with_text("description", "Y screen coordinate.");
        let p_button = Json::object()
            .with_text("type", "string")
            .with("enum", Json::array().plus(Json::text("left")).plus(Json::text("right")).plus(Json::text("middle")))
            .with_text("description", "Mouse button (default 'left').");
        let p_double = Json::object()
            .with_text("type", "boolean")
            .with_text("description", "If true, performs a double-click.");
        Json::object()
            .with_text("type", "object")
            .with("properties", Json::object().with("x", p_x).with("y", p_y).with("button", p_button).with("double", p_double))
            .with("required", Json::array().plus(Json::text("x")).plus(Json::text("y")))
    }
}

impl TypeText {
    /// The schema of the arguments.
    pub open spec fn parameters() -> JVal {
        let p_text = JVal::object()
            .with("type"@, JVal::Str("string"@))
            .with("description"@, JVal::Str("Text to type. Max 4096 chars. Cannot start with '-' or contain '--clearmodifiers'."@));
        JVal::object()
            .with("type"@, JVal::Str("object"@))
            .with("properties"@, JVal::object().with("text"@, p_text))
            .with("required"@, JVal::array().plus(JVal::Str("text"@)))
    }

    /// The name under which the tool is called.
    pub fn name(&self) -> (r: &'static str)
        ensures
            r@ == "type_text"@,
    {
        "type_text"
    }

    /// What the tool does.
    pub fn description(&self) -> (r: &'static str)
        ensures
            r@ == "Synthesise keyboard typing into the currently-focused window. Capped at 4096 characters. DESTRUCTIVE — will request user confirmation unless the focused window's WM class is in the safe-focus-apps allowlist (smart mode) or safety mode is off."@,
    {
        "Synthesise keyboard typing into the currently-focused window. Capped at 4096 characters. DESTRUCTIVE — will request user confirmation unless the focused window's WM class is in the safe-focus-apps allowlist (smart mode) or safety mode is off."
    }

    /// The schema of the arguments.
    pub fn schema(&self) -> (r: Json)
        ensures
            r@ == Self::parameters(),
    {
        let p_text = Json::object()
            .with_text("type", "string")
            .with_text("description", "Text to type. Max 4096 chars. Cannot start with '-' or contain '--clearmodifiers'.");
        Json::object()
            .with_text("type", "object")
            .with("properties", Json::object().with("text", p_text))
            .with("required", Json::array().plus(Json::text("text")))
    }
}

impl KeyCombo {
    /// The schema of the arguments.
    pub open spec fn parameters() -> JVal {
        let p_combo = JVal::object()
            .with("type"@, JVal::Str("string"@))
            .with("description"@, JVal::Str("Key combo string. Only A-Z, a-z, 0-9, '_', '+' allowed."@));
        JVal::object()
            .with("type"@, JVal::Str("object"@))
            .with("properties"@, JVal::object().with("combo"@, p_combo))
            .with("required"@, JVal::array().plus(JVal::Str("combo"@)))
    }

    /// The name under which the tool is called.
    pub fn name(&self) -> (r: &'static str)
        ensures
            r@ == "key_combo"@,
    {
        "key_combo"
    }

    /// What the tool does.
    pub fn description(&self) -> (r: &'static str)
        ensures
            r@ == "Press a single key or modifier combination via xdotool. Examples: 'Return', 'Escape', 'ctrl+c', 'alt+Tab', 'super+l'. The combo string is validated for shell-metachar injection (only A-Z, a-z, 0-9, '_', '+'). DESTRUCTIVE — confirmation required unless the combo is in the safe-key allowlist (smart mode) or safety is off."@,
    {
        "Press a single key or modifier combination via xdotool. Examples: 'Return', 'Escape', 'ctrl+c', 'alt+Tab', 'super+l'. The combo string is validated for shell-metachar injection (only A-Z, a-z, 0-9, '_', '+'). DESTRUCTIVE — confirmation required unless the combo is in the safe-key allowlist (smart mode) or safety is off."
    }

    /// The schema of the arguments.
    pub fn schema(&self) -> (r: Json)
        ensures
            r@ == Self::parameters(),
    {
        let p_combo = Json::object()
            .with_text("type", "string")
            .with_text("description", "Key combo string. Only A-Z, a-z, 0-9, '_', '+' allowed.");
        Json::object()
            .with_text("type", "object")
            .with("properties", Json::object().with("combo", p_combo))
            .with("required", Json::array().plus(Json::text("combo")))
    }
}

impl Scroll {
    /// The schema of the arguments.
    pub open spec fn parameters() -> JVal {
        let p_direction = JVal::object()
            .with("type"@, JVal::Str("string"@))
            .with("enum"@, JVal::array().plus(JVal::Str("up"@)).plus(JVal::Str("down"@)).plus(JVal::Str("left"@)).plus(JVal::Str("right"@)));
        let p_amount = JVal::object()
            .with("type"@, JVal::Str("integer"@))
            .with("minimum"@, JVal::UInt(1))
            .with("maximum"@, JVal::UInt(50))
            .with("description"@, JVal::Str("Click ticks. Default 3, max 50."@));
        JVal::object()
            .with("type"@, JVal::Str("object"@))
            .with("properties"@, JVal::object().with("direction"@, p_direction).with("amount"@, p_amount))
            .with("required"@, JVal::array().plus(JVal::Str("direction"@)))
    }

    /// The name under which the tool is called.
    pub fn name(&self) -> (r: &'static str)
        ensures
            r@ == "scroll"@,
    {
        "scroll"
    }

    /// What the tool does.
    pub fn description(&self) -> (r: &'static str)
        ensures
            r@ == "Scroll the wheel in a direction. direction='up'|'down'|'left'|'right', amount is the number of click ticks (default 3). DESTRUCTIVE — scroll always confirms in smart and confirm modes."@,
    {
        "Scroll the wheel in a direction. direction='up'|'down'|'left'|'right', amount is the number of click ticks (default 3). DESTRUCTIVE — scroll always confirms in smart and confirm modes."
    }

    /// The schema of the arguments.
    pub fn schema(&self) -> (r: Json)
        ensures
            r@ == Self::parameters(),
    {
        let p_direction = Json::object()
            .with_text("type", "string")
            .with("enum", Json::array().plus(Json::text("up")).plus(Json::text("down")).plus(Json::text("left")).plus(Json::text("right")));
        let p_amount = Json::object()
            .with_text("type", "integer")
            .with("minimum", Json::UInt(1))
            .with("maximum", Json::UInt(50))
            .with_text("description", "Click ticks. Default 3, max 50.");
        Json::object()
            .with_text("type", "object")
            .with("properties", Json::object().with("direction", p_direction).with("amount", p_amount))
            .with("required", Json::array().plus(Json::text("direction")))
    }
}

impl FocusWindow {
    /// The schema of the arguments.
    pub open spec fn parameters() -> JVal {
        let p_query = JVal::object()
            .with("type"@, JVal::Str("string"@))
            .with("description"@, JVal::Str("Window-title regex. Plain substrings work — they're treated as literal text."@));
        JVal::object()
            .with("type"@, JVal::Str("object"@))
            .with("properties"@, JVal::object().with("query"@, p_query))
            .with("required"@, JVal::array().plus(JVal::Str("query"@)))
    }

    /// The name under which the tool is called.
    pub fn name(&self) -> (r: &'static str)
        ensures
            r@ == "focus_window"@,
    {
        "focus_window"
    }

    /// What the tool does.
    pub fn description(&self) -> (r: &'static str)
        ensures
            r@ == "Find a window by title substring (xdotool search --name) and activate the first match. The query is treated as a regex by xdotool, so anchor it or use literal substrings. DESTRUCTIVE — confirmation required unless safety is off."@,
    {
        "Find a window by title substring (xdotool search --name) and activate the first match. The query is treated as a regex by xdotool, so anchor it or use literal substrings. DESTRUCTIVE — confirmation required unless safety is off."
    }

    /// The schema of the arguments.
    pub fn schema(&self) -> (r: Json)
        ensures
            r@ == Self::parameters(),
    {
        let p_query = Json::object()
            .with_text("type", "string")
            .with_text("description", "Window-title regex. Plain substrings work — they're treated as literal text.");
        Json::object()
            .with_text("type", "object")
            .with("properties", Json::object().with("query", p_query))
            .with("required", Json::array().plus(Json::text("query")))
    }
}

impl GetMouse {
    /// The schema of the arguments.
    pub open spec fn parameters() -> JVal {
        JVal::object().with("type"@, JVal::Str("object"@)).with("properties"@, JVal::object())
    }

    /// The name under which the tool is called.
    pub fn name(&self) -> (r: &'static str)
        ensures
            r@ == "get_mouse"@,
    {
        "get_mouse"
    }

    /// What the tool does.
    pub fn description(&self) -> (r: &'static str)
        ensures
            r@ == "Return the current mouse pointer coordinate and the window class + title the pointer is currently over. Read-only; safe to call any time."@,
    {
        "Return the current mouse pointer coordinate and the window class + title the pointer is currently over. Read-only; safe to call any time."
    }

    /// The schema of the arguments.
    pub fn schema(&self) -> (r: Json)
        ensures
            r@ == Self::parameters(),
    {
        Json::object().with_text("type", "object").with("properties", Json::object())
    }
}

impl Screenshot {
    /// The schema of the arguments.
    pub open spec fn parameters() -> JVal {
        JVal::object().with("type"@, JVal::Str("object"@)).with("properties"@, JVal::object())
    }

    /// The name under which the tool is called.
    pub fn name(&self) -> (r: &'static str)
        ensures
            r@ == "screenshot"@,
    {
        "screenshot"
    }

    /// What the tool does.
    pub fn description(&self) -> (r: &'static str)
        ensures
            r@ == "Capture the full screen to a PNG file. Returns the absolute file path; the image is NOT read back into the tool result. Use when the user asks you to 'take a screenshot' or 'save what's on screen'."@,
    {
        "Capture the full screen to a PNG file. Returns the absolute file path; the image is NOT read back into the tool result. Use when the user asks you to 'take a screenshot' or 'save what's on screen'."
    }

    /// The schema of the arguments.
    pub fn schema(&self) -> (r: Json)
        ensures
            r@ == Self::parameters(),
    {
        Json::object().with_text("type", "object").with("properties", Json::object())
    }
}

impl DispatchAgent {
    /// The schema of the arguments.
    pub open spec fn parameters() -> JVal {
        let p_agent_name = JVal::object()
            .with("type"@, JVal::Str("string"@))
            .with("description"@, JVal::Str("Target agent name. Becomes the suffix of `agent.dispatch.<name>`. Avoid dispatching to your own agent name (loop)."@));
        let p_task = JVal::object()
            .with("type"@, JVal::Str("string"@))
            .with("description"@, JVal::Str("The task / prompt to send to the target agent. Treated as the user_input on the receiving end."@));
        let p_timeout_ms = JVal::object()
            .with("type"@, JVal::Str("integer"@))
            .with("description"@, JVal::Str("How long to wait for a reply, in milliseconds. Default 30000, max 300000."@))
            .with("minimum"@, JVal::UInt(100))
            .with("maximum"@, JVal::UInt(300000));
        JVal::object()
            .with("type"@, JVal::Str("object"@))
            .with("properties"@, JVal::object().with("agent_name"@, p_agent_name).with("task"@, p_task).with("timeout_ms"@, p_timeout_ms))
            .with("required"@, JVal::array().plus(JVal::Str("agent_name"@)).plus(JVal::Str("task"@)))
    }

    /// The name under which the tool is called.
    pub fn name(&self) -> (r: &'static str)
        ensures
            r@ == "dispatch_agent"@,
    {
        "dispatch_agent"
    }

    /// What the tool does.
    pub fn description(&self) -> (r: &'static str)
        ensures
            r@ == "Send a task to another agent on the NATS bus and wait for its reply. Use to delegate specialised work — e.g. dispatch_agent('axiom-proof', 'verify claim X') or dispatch_agent('paladin', 'audit this script'). Returns the agent's text reply, or an error if it timed out."@,
    {
        "Send a task to another agent on the NATS bus and wait for its reply. Use to delegate specialised work — e.g. dispatch_agent('axiom-proof', 'verify claim X') or dispatch_agent('paladin', 'audit this script'). Returns the agent's text reply, or an error if it timed out."
    }

    /// The schema of the arguments.
    pub fn schema(&self) -> (r: Json)
        ensures
            r@ == Self::parameters(),
    {
        let p_agent_name = Json::object()
            .with_text("type", "string")
            .with_text("description", "Target agent name. Becomes the suffix of `agent.dispatch.<name>`. Avoid dispatching to your own agent name (loop).");
        let p_task = Json::object()
            .with_text("type", "string")
            .with_text("description", "The task / prompt to send to the target agent. Treated as the user_input on the receiving end.");
        let p_timeout_ms = Json::object()
            .with_text("type", "integer")
            .with_text("description", "How long to wait for a reply, in milliseconds. Default 30000, max 300000.")
            .with("minimum", Json::UInt(100))
            .with("maximum", Json::UInt(300000));
        Json::object()
            .with_text("type", "object")
            .with("properties", Json::object().with("agent_name", p_agent_name).with("task", p_task).with("timeout_ms", p_timeout_ms))
            .with("required", Json::array().plus(Json::text("agent_name")).plus(Json::text("task")))
    }
}

impl MemctlRecall {
    /// The schema of the arguments.
    pub open spec fn parameters() -> JVal {
        let p_query = JVal::object()
            .with("type"@, JVal::Str("string"@))
            .with("description"@, JVal::Str("Free-text search query — keywords work best."@));
        let p_limit = JVal::object()
            .with("type"@, JVal::Str("integer"@))
            .with("description"@, JVal::Str("Max memories to return (default 5, max 20)."@))
            .with("minimum"@, JVal::UInt(1))
            .with("maximum"@, JVal::UInt(20));
        JVal::object()
            .with("type"@, JVal::Str("object"@))
            .with("properties"@, JVal::object().with("query"@, p_query).with("limit"@, p_limit))
            .with("required"@, JVal::array().plus(JVal::Str("query"@)))
    }

    /// The name under which the tool is called.
    pub fn name(&self) -> (r: &'static str)
        ensures
            r@ == "memctl_recall"@,
    {
        "memctl_recall"
    }

    /// What the tool does.
    pub fn description(&self) -> (r: &'static str)
        ensures
            r@ == "Search the user's persistent memory store (memctl). Returns scored memories — decisions, facts, corrections, patterns the user has confirmed in past sessions. Use BEFORE re-deriving context that might already be settled, especially on session start or topic switch."@,
    {
        "Search the user's persistent memory store (memctl). Returns scored memories — decisions, facts, corrections, patterns the user has confirmed in past sessions. Use BEFORE re-deriving context that might already be settled, especially on session start or topic switch."
    }

    /// The schema of the arguments.
    pub fn schema(&self) -> (r: Json)
        ensures
            r@ == Self::parameters(),
    {
        let p_query = Json::object()
            .with_text("type", "string")
            .with_text("description", "Free-text search query — keywords work best.");
        let p_limit = Json::object()
            .with_text("type", "integer")
            .with_text("description", "Max memories to return (default 5, max 20).")
            .with("minimum", Json::UInt(1))
            .with("maximum", Json::UInt(20));
        Json::object()
            .with_text("type", "object")
            .with("properties", Json::object().with("query", p_query).with("limit", p_limit))
            .with("required", Json::array().plus(Json::text("query")))
    }
}

impl MemctlIngest {
    /// The schema of the arguments.
    pub open spec fn parameters() -> JVal {
        let p_content = JVal::object()
            .with("type"@, JVal::Str("string"@))
            .with("description"@, JVal::Str("The memory text — one or two sentences."@));
        let p_kind = JVal::object()
            .with("type"@, JVal::Str("string"@))
            .with("enum"@, JVal::array().plus(JVal::Str("decision"@)).plus(JVal::Str("fact"@)).plus(JVal::Str("error"@)).plus(JVal::Str("correction"@)).plus(JVal::Str("pattern"@)).plus(JVal::Str("insight"@)))
            .with("description"@, JVal::Str("Memory type."@));
        let p_scope = JVal::object()
            .with("type"@, JVal::Str("string"@))
            .with("enum"@, JVal::array().plus(JVal::Str("project"@)).plus(JVal::Str("global"@)))
            .with("description"@, JVal::Str("Storage scope."@));
        JVal::object()
            .with("type"@, JVal::Str("object"@))
            .with("properties"@, JVal::object().with("content"@, p_content).with("kind"@, p_kind).with("scope"@, p_scope))
            .with("required"@, JVal::array().plus(JVal::Str("content"@)).plus(JVal::Str("kind"@)).plus(JVal::Str("scope"@)))
    }

    /// The name under which the tool is called.
    pub fn name(&self) -> (r: &'static str)
        ensures
            r@ == "memctl_ingest"@,
    {
        "memctl_ingest"
    }

    /// What the tool does.
    pub fn description(&self) -> (r: &'static str)
        ensures
            r@ == "Persist a new memory (decision/fact/correction/pattern/insight/error) into the user's memctl store. Use AFTER confirming a non-trivial decision, discovering a non-obvious pattern, or being corrected on something. Don't ingest routine code changes or anything derivable from git history."@,
    {
        "Persist a new memory (decision/fact/correction/pattern/insight/error) into the user's memctl store. Use AFTER confirming a non-trivial decision, discovering a non-obvious pattern, or being corrected on something. Don't ingest routine code changes or anything derivable from git history."
    }

    /// The schema of the arguments.
    pub fn schema(&self) -> (r: Json)
        ensures
            r@ == Self::parameters(),
    {
        let p_content = Json::object()
            .with_text("type", "string")
            .with_text("description", "The memory text — one or two sentences.");
        let p_kind = Json::object()
            .with_text("type", "string")
            .with("enum", Json::array().plus(Json::text("decision")).plus(Json::text("fact")).plus(Json::text("error")).plus(Json::text("correction")).plus(Json::text("pattern")).plus(Json::text("insight")))
            .with_text("description", "Memory type.");
        let p_scope = Json::object()
            .with_text("type", "string")
            .with("enum", Json::array().plus(Json::text("project")).plus(Json::text("global")))
            .with_text("description", "Storage scope.");
        Json::object()
            .with_text("type", "object")
            .with("properties", Json::object().with("content", p_content).with("kind", p_kind).with("scope", p_scope))
            .with("required", Json::array().plus(Json::text("content")).plus(Json::text("kind")).plus(Json::text("scope")))
    }
}

impl SemanticSearch {
    /// The schema of the arguments.
    pub open spec fn parameters() -> JVal {
        let p_query = JVal::object()
            .with("type"@, JVal::Str("string"@))
            .with("description"@, JVal::Str("The search query."@));
        let p_documents = JVal::object()
            .with("type"@, JVal::Str("array"@))
            .with("items"@, JVal::object().with("type"@, JVal::Str("string"@)))
            .with("description"@, JVal::Str("Passages to search against (max 20)."@))
            .with("minItems"@, JVal::UInt(1))
            .with("maxItems"@, JVal::UInt(20));
        let p_top_k = JVal::object()
            .with("type"@, JVal::Str("integer"@))
            .with("description"@, JVal::Str("Number of top results to return (default 3, max 20)."@))
            .with("minimum"@, JVal::UInt(1))
            .with("maximum"@, JVal::UInt(20));
        JVal::object()
            .with("type"@, JVal::Str("object"@))
            .with("properties"@, JVal::object().with("query"@, p_query).with("documents"@, p_documents).with("top_k"@, p_top_k))
            .with("required"@, JVal::array().plus(JVal::Str("query"@)).plus(JVal::Str("documents"@)))
    }

    /// The name under which the tool is called.
    pub fn name(&self) -> (r: &'static str)
        ensures
            r@ == "semantic_search"@,
    {
        "semantic_search"
    }

    /// What the tool does.
    pub fn description(&self) -> (r: &'static str)
        ensures
            r@ == "Embed a query and a list of text passages using nomic-embed-text, then rank the passages by cosine similarity to the query. Returns the top-k most relevant passages with their similarity scores. Use to find semantically relevant context from a known corpus — memory snippets, document chunks, log entries, etc."@,
    {
        "Embed a query and a list of text passages using nomic-embed-text, then rank the passages by cosine similarity to the query. Returns the top-k most relevant passages with their similarity scores. Use to find semantically relevant context from a known corpus — memory snippets, document chunks, log entries, etc."
    }

    /// The schema of the arguments.
    pub fn schema(&self) -> (r: Json)
        ensures
            r@ == Self::parameters(),
    {
        let p_query = Json::object()
            .with_text("type", "string")
            .with_text("description", "The search query.");
        let p_documents = Json::object()
            .with_text("type", "array")
            .with("items", Json::object().with_text("type", "string"))
            .with_text("description", "Passages to search against (max 20).")
            .with("minItems", Json::UInt(1))
            .with("maxItems", Json::UInt(20));
        let p_top_k = Json::object()
            .with_text("type", "integer")
            .with_text("description", "Number of top results to return (default 3, max 20).")
            .with("minimum", Json::UInt(1))
            .with("maximum", Json::UInt(20));
        Json::object()
            .with_text("type", "object")
            .with("properties", Json::object().with("query", p_query).with("documents", p_documents).with("top_k", p_top_k))
            .with("required", Json::array().plus(Json::text("query")).plus(Json::text("documents")))
    }
}

impl Rerank {
    /// The schema of the arguments.
    pub open spec fn parameters() -> JVal {
        let p_query = JVal::object()
            .with("type"@, JVal::Str("string"@))
            .with("description"@, JVal::Str("The query to rank passages against."@));
        let p_passages = JVal::object()
            .with("type"@, JVal::Str("array"@))
            .with("items"@, JVal::object().with("type"@, JVal::Str("string"@)))
            .with("description"@, JVal::Str("Passages to rerank (max 20)."@))
            .with("minItems"@, JVal::UInt(1))
            .with("maxItems"@, JVal::UInt(20));
        let p_top_k = JVal::object()
            .with("type"@, JVal::Str("integer"@))
            .with("description"@, JVal::Str("Number of top passages to return (default 5, max 20)."@))
            .with("minimum"@, JVal::UInt(1))
            .with("maximum"@, JVal::UInt(20));
        JVal::object()
            .with("type"@, JVal::Str("object"@))
            .with("properties"@, JVal::object().with("query"@, p_query).with("passages"@, p_passages).with("top_k"@, p_top_k))
            .with("required"@, JVal::array().plus(JVal::Str("query"@)).plus(JVal::Str("passages"@)))
    }

    /// The name under which the tool is called.
    pub fn name(&self) -> (r: &'static str)
        ensures
            r@ == "rerank"@,
    {
        "rerank"
    }

    /// What the tool does.
    pub fn description(&self) -> (r: &'static str)
        ensures
            r@ == "Rerank a list of text passages for a query using bge-reranker. Returns passages sorted by relevance score descending. More efficient than semantic_search for small corpora — single API call instead of N+1. Use when you already have candidate passages and want to surface the most relevant ones."@,
    {
        "Rerank a list of text passages for a query using bge-reranker. Returns passages sorted by relevance score descending. More efficient than semantic_search for small corpora — single API call instead of N+1. Use when you already have candidate passages and want to surface the most relevant ones."
    }

    /// The schema of the arguments.
    pub fn schema(&self) -> (r: Json)
        ensures
            r@ == Self::parameters(),
    {
        let p_query = Json::object()
            .with_text("type", "string")
            .with_text("description", "The query to rank passages against.");
        let p_passages = Json::object()
            .with_text("type", "array")
            .with("items", Json::object().with_text("type", "string"))
            .with_text("description", "Passages to rerank (max 20).")
            .with("minItems", Json::UInt(1))
            .with("maxItems", Json::UInt(20));
        let p_top_k = Json::object()
            .with_text("type", "integer")
            .with_text("description", "Number of top passages to return (default 5, max 20).")
            .with("minimum", Json::UInt(1))
            .with("maximum", Json::UInt(20));
        Json::object()
            .with_text("type", "object")
            .with("properties", Json::object().with("query", p_query).with("passages", p_passages).with("top_k", p_top_k))
            .with("required", Json::array().plus(Json::text("query")).plus(Json::text("passages")))
    }
}

impl WebSearch {
    /// The schema of the arguments.
    pub open spec fn parameters() -> JVal {
        let p_query = JVal::object()
            .with("type"@, JVal::Str("string"@))
            .with("description"@, JVal::Str("Search query — natural language is fine."@));
        let p_max_results = JVal::object()
            .with("type"@, JVal::Str("integer"@))
            .with("description"@, JVal::Str("Maximum number of results to return (default 5, max 10)."@))
            .with("minimum"@, JVal::UInt(1))
            .with("maximum"@, JVal::UInt(10));
        JVal::object()
            .with("type"@, JVal::Str("object"@))
            .with("properties"@, JVal::object().with("query"@, p_query).with("max_results"@, p_max_results))
            .with("required"@, JVal::array().plus(JVal::Str("query"@)))
    }

    /// The name under which the tool is called.
    pub fn name(&self) -> (r: &'static str)
        ensures
            r@ == "web_search"@,
    {
        "web_search"
    }

    /// What the tool does.
    pub fn description(&self) -> (r: &'static str)
        ensures
            r@ == "Search the open web via the user's SearXNG instance. Returns a numbered list of titles, URLs, and short snippets. Use whenever the user asks about something you don't already know — current events, documentation, prices, etc."@,
    {
        "Search the open web via the user's SearXNG instance. Returns a numbered list of titles, URLs, and short snippets. Use whenever the user asks about something you don't already know — current events, documentation, prices, etc."
    }

    /// The schema of the arguments.
    pub fn schema(&self) -> (r: Json)
        ensures
            r@ == Self::parameters(),
    {
        let p_query = Json::object()
            .with_text("type", "string")
            .with_text("description", "Search query — natural language is fine.");
        let p_max_results = Json::object()
            .with_text("type", "integer")
            .with_text("description", "Maximum number of results to return (default 5, max 10).")
            .with("minimum", Json::UInt(1))
            .with("maximum", Json::UInt(10));
        Json::object()
            .with_text("type", "object")
            .with("properties", Json::object().with("query", p_query).with("max_results", p_max_results))
            .with("required", Json::array().plus(Json::text("query")))
    }
}

impl VaultRecent {
    /// The schema of the arguments.
    pub open spec fn parameters() -> JVal {
        let p_n = JVal::object()
            .with("type"@, JVal::Str("integer"@))
            .with("description"@, JVal::Str("Number of files to return (default 10, max 50)."@))
            .with("minimum"@, JVal::UInt(1))
            .with("maximum"@, JVal::UInt(50));
        JVal::object()
            .with("type"@, JVal::Str("object"@))
            .with("properties"@, JVal::object().with("n"@, p_n))
            .with("required"@, JVal::array())
    }

    /// The name under which the tool is called.
    pub fn name(&self) -> (r: &'static str)
        ensures
            r@ == "vault_recent"@,
    {
        "vault_recent"
    }

    /// What the tool does.
    pub fn description(&self) -> (r: &'static str)
        ensures
            r@ == "Return the N most recently modified files in the Obsidian vault. Each entry includes relative path, last-modified timestamp, and key frontmatter fields (title, type, project, status). Use this to answer 'what did I last work on?' or 'what was created recently?'"@,
    {
        "Return the N most recently modified files in the Obsidian vault. Each entry includes relative path, last-modified timestamp, and key frontmatter fields (title, type, project, status). Use this to answer 'what did I last work on?' or 'what was created recently?'"
    }

    /// The schema of the arguments.
    pub fn schema(&self) -> (r: Json)
        ensures
            r@ == Self::parameters(),
    {
        let p_n = Json::object()
            .with_text("type", "integer")
            .with_text("description", "Number of files to return (default 10, max 50).")
            .with("minimum", Json::UInt(1))
            .with("maximum", Json::UInt(50));
        Json::object()
            .with_text("type", "object")
            .with("properties", Json::object().with("n", p_n))
            .with("required", Json::array())
    }
}

impl VaultFind {
    /// The schema of the arguments.
    pub open spec fn parameters() -> JVal {
        let p_project = JVal::object()
            .with("type"@, JVal::Str("string"@))
            .with("description"@, JVal::Str("Match files with this frontmatter `project` value (substring, case-insensitive)."@));
        let p_tags = JVal::object()
            .with("type"@, JVal::Str("string"@))
            .with("description"@, JVal::Str("Comma-separated tags to require (frontmatter `tags` field, substring match each)."@));
        let p_type = JVal::object()
            .with("type"@, JVal::Str("string"@))
            .with("description"@, JVal::Str("Match files with this frontmatter `type` value (substring, case-insensitive)."@));
        let p_status = JVal::object()
            .with("type"@, JVal::Str("string"@))
            .with("description"@, JVal::Str("Match files with this frontmatter `status` value (exact, case-insensitive)."@));
        let p_title_contains = JVal::object()
            .with("type"@, JVal::Str("string"@))
            .with("description"@, JVal::Str("Substring to match against frontmatter `title` (case-insensitive)."@));
        let p_limit = JVal::object()
            .with("type"@, JVal::Str("integer"@))
            .with("description"@, JVal::Str("Max results to return (default 20, max 100)."@))
            .with("minimum"@, JVal::UInt(1))
            .with("maximum"@, JVal::UInt(100));
        JVal::object()
            .with("type"@, JVal::Str("object"@))
            .with("properties"@, JVal::object().with("project"@, p_project).with("tags"@, p_tags).with("type"@, p_type).with("status"@, p_status).with("title_contains"@, p_title_contains).with("limit"@, p_limit))
            .with("required"@, JVal::array())
    }

    /// The name under which the tool is called.
    pub fn name(&self) -> (r: &'static str)
        ensures
            r@ == "vault_find"@,
    {
        "vault_find"
    }

    /// What the tool does.
    pub fn description(&self) -> (r: &'static str)
        ensures
            r@ == "Search vault files by frontmatter field values. All provided filters are AND-ed. Returns matching files with their relative path and frontmatter fields. Use for queries like 'find all active projects' or 'what files are tagged meeting and belong to SOLA?'"@,
    {
        "Search vault files by frontmatter field values. All provided filters are AND-ed. Returns matching files with their relative path and frontmatter fields. Use for queries like 'find all active projects' or 'what files are tagged meeting and belong to SOLA?'"
    }

    /// The schema of the arguments.
    pub fn schema(&self) -> (r: Json)
        ensures
            r@ == Self::parameters(),
    {
        let p_project = Json::object()
            .with_text("type", "string")
            .with_text("description", "Match files with this frontmatter `project` value (substring, case-insensitive).");
        let p_tags = Json::object()
            .with_text("type", "string")
            .with_text("description", "Comma-separated tags to require (frontmatter `tags` field, substring match each).");
        let p_type = Json::object()
            .with_text("type", "string")
            .with_text("description", "Match files with this frontmatter `type` value (substring, case-insensitive).");
        let p_status = Json::object()
            .with_text("type", "string")
            .with_text("description", "Match files with this frontmatter `status` value (exact, case-insensitive).");
        let p_title_contains = Json::object()
            .with_text("type", "string")
            .with_text("description", "Substring to match against frontmatter `title` (case-insensitive).");
        let p_limit = Json::object()
            .with_text("type", "integer")
            .with_text("description", "Max results to return (default 20, max 100).")
            .with("minimum", Json::UInt(1))
            .with("maximum", Json::UInt(100));
        Json::object()
            .with_text("type", "object")
            .with("properties", Json::object().with("project", p_project).with("tags", p_tags).with("type", p_type).with("status", p_status).with("title_contains", p_title_contains).with("limit", p_limit))
            .with("required", Json::array())
    }
}

impl LookAtScreen {
    /// The schema of the arguments.
    pub open spec fn parameters() -> JVal {
        let p_question = JVal::object()
            .with("type"@, JVal::Str("string"@))
            .with("description"@, JVal::Str("What you want the vision model to tell you about the screen. Be focused — 'what does the error in the terminal say' beats 'describe everything'. Optional; defaults to a short overview prompt."@));
        JVal::object()
            .with("type"@, JVal::Str("object"@))
            .with("properties"@, JVal::object().with("question"@, p_question))
    }

    /// The name under which the tool is called.
    pub fn name(&self) -> (r: &'static str)
        ensures
            r@ == "look_at_screen"@,
    {
        "look_at_screen"
    }

    /// What the tool does.
    pub fn description(&self) -> (r: &'static str)
        ensures
            r@ == "Capture the current screen and ask a vision LLM about it. Use when the user asks what's on their screen, what an error message says, what's in a video they're watching, or where to click for X. The vision model handles the image — you just need to ask it the right focused question. Answer is capped to 500 characters (voice-friendly)."@,
    {
        "Capture the current screen and ask a vision LLM about it. Use when the user asks what's on their screen, what an error message says, what's in a video they're watching, or where to click for X. The vision model handles the image — you just need to ask it the right focused question. Answer is capped to 500 characters (voice-friendly)."
    }

    /// The schema of the arguments.
    pub fn schema(&self) -> (r: Json)
        ensures
            r@ == Self::parameters(),
    {
        let p_question = Json::object()
            .with_text("type", "string")
            .with_text("description", "What you want the vision model to tell you about the screen. Be focused — 'what does the error in the terminal say' beats 'describe everything'. Optional; defaults to a short overview prompt.");
        Json::object()
            .with_text("type", "object")
            .with("properties", Json::object().with("question", p_question))
    }
}

impl OpenApp {
    /// The schema of the arguments.
    pub open spec fn parameters() -> JVal {
        let p_name = JVal::object()
            .with("type"@, JVal::Str("string"@))
            .with("description"@, JVal::Str("App name — e.g. 'firefox', 'kitty', 'Obsidian'. Case-insensitive fuzzy match."@));
        JVal::object()
            .with("type"@, JVal::Str("object"@))
            .with("properties"@, JVal::object().with("name"@, p_name))
            .with("required"@, JVal::array().plus(JVal::Str("name"@)))
    }

    /// The name under which the tool is called.
    pub fn name(&self) -> (r: &'static str)
        ensures
            r@ == "open_app"@,
    {
        "open_app"
    }

    /// What the tool does.
    pub fn description(&self) -> (r: &'static str)
        ensures
            r@ == "Launch a desktop application by name. Tries the literal `<name>.desktop` first, then a fuzzy match against the user's and system .desktop directories. Returns the desktop ID that was launched."@,
    {
        "Launch a desktop application by name. Tries the literal `<name>.desktop` first, then a fuzzy match against the user's and system .desktop directories. Returns the desktop ID that was launched."
    }

    /// The schema of the arguments.
    pub fn schema(&self) -> (r: Json)
        ensures
            r@ == Self::parameters(),
    {
        let p_name = Json::object()
            .with_text("type", "string")
            .with_text("description", "App name — e.g. 'firefox', 'kitty', 'Obsidian'. Case-insensitive fuzzy match.");
        Json::object()
            .with_text("type", "object")
            .with("properties", Json::object().with("name", p_name))
            .with("required", Json::array().plus(Json::text("name")))
    }
}

impl OpenUrl {
    /// The schema of the arguments.
    pub open spec fn parameters() -> JVal {
        let p_url = JVal::object()
            .with("type"@, JVal::Str("string"@))
            .with("description"@, JVal::Str("URL to open. Must start with http://, https://, or mailto:"@));
        JVal::object()
            .with("type"@, JVal::Str("object"@))
            .with("properties"@, JVal::object().with("url"@, p_url))
            .with("required"@, JVal::array().plus(JVal::Str("url"@)))
    }

    /// The name under which the tool is called.
    pub fn name(&self) -> (r: &'static str)
        ensures
            r@ == "open_url"@,
    {
        "open_url"
    }

    /// What the tool does.
    pub fn description(&self) -> (r: &'static str)
        ensures
            r@ == "Open a URL in the user's default browser. Only http://, https://, and mailto: URLs are accepted — file:// and other schemes are rejected to prevent local file exfiltration."@,
    {
        "Open a URL in the user's default browser. Only http://, https://, and mailto: URLs are accepted — file:// and other schemes are rejected to prevent local file exfiltration."
    }

    /// The schema of the arguments.
    pub fn schema(&self) -> (r: Json)
        ensures
            r@ == Self::parameters(),
    {
        let p_url = Json::object()
            .with_text("type", "string")
            .with_text("description", "URL to open. Must start with http://, https://, or mailto:");
        Json::object()
            .with_text("type", "object")
            .with("properties", Json::object().with("url", p_url))
            .with("required", Json::array().plus(Json::text("url")))
    }
}

impl Notification {
    /// The schema of the arguments.
    pub open spec fn parameters() -> JVal {
        let p_title = JVal::object()
            .with("type"@, JVal::Str("string"@))
            .with("description"@, JVal::Str("Short title shown in bold."@));
        let p_body = JVal::object()
            .with("type"@, JVal::array().plus(JVal::Str("string"@)).plus(JVal::Str("null"@)))
            .with("description"@, JVal::Str("Optional body text."@));
        JVal::object()
            .with("type"@, JVal::Str("object"@))
            .with("properties"@, JVal::object().with("title"@, p_title).with("body"@, p_body))
            .with("required"@, JVal::array().plus(JVal::Str("title"@)))
    }

    /// The name under which the tool is called.
    pub fn name(&self) -> (r: &'static str)
        ensures
            r@ == "notification"@,
    {
        "notification"
    }

    /// What the tool does.
    pub fn description(&self) -> (r: &'static str)
        ensures
            r@ == "Send a desktop notification (notify-send). Use for non-blocking status updates the user can glance at — e.g. 'meeting in 5 minutes' or 'pipeline finished'. Always safe."@,
    {
        "Send a desktop notification (notify-send). Use for non-blocking status updates the user can glance at — e.g. 'meeting in 5 minutes' or 'pipeline finished'. Always safe."
    }

    /// The schema of the arguments.
    pub fn schema(&self) -> (r: Json)
        ensures
            r@ == Self::parameters(),
    {
        let p_title = Json::object()
            .with_text("type", "string")
            .with_text("description", "Short title shown in bold.");
        let p_body = Json::object()
            .with("type", Json::array().plus(Json::text("string")).plus(Json::text("null")))
            .with_text("description", "Optional body text.");
        Json::object()
            .with_text("type", "object")
            .with("properties", Json::object().with("title", p_title).with("body", p_body))
            .with("required", Json::array().plus(Json::text("title")))
    }
}

impl CurrentWindow {
    /// The schema of the arguments.
    pub open spec fn parameters() -> JVal {
        JVal::object().with("type"@, JVal::Str("object"@)).with("properties"@, JVal::object())
    }

    /// The name under which the tool is called.
    pub fn name(&self) -> (r: &'static str)
        ensures
            r@ == "current_window"@,
    {
        "current_window"
    }

    /// What the tool does.
    pub fn description(&self) -> (r: &'static str)
        ensures
            r@ == "Return the currently focused X11 window's title and WM class. Useful for situational awareness — 'what is the user looking at right now'."@,
    {
        "Return the currently focused X11 window's title and WM class. Useful for situational awareness — 'what is the user looking at right now'."
    }

    /// The schema of the arguments.
    pub fn schema(&self) -> (r: Json)
        ensures
            r@ == Self::parameters(),
    {
        Json::object().with_text("type", "object").with("properties", Json::object())
    }
}

impl ClipboardGet {
    /// The schema of the arguments.
    pub open spec fn parameters() -> JVal {
        JVal::object().with("type"@, JVal::Str("object"@)).with("properties"@, JVal::object())
    }

    /// The name under which the tool is called.
    pub fn name(&self) -> (r: &'static str)
        ensures
            r@ == "clipboard_get"@,
    {
        "clipboard_get"
    }

    /// What the tool does.
    pub fn description(&self) -> (r: &'static str)
        ensures
            r@ == "Read the text content of the user's X11 clipboard (xclip -selection clipboard). Capped at 4KB; longer content is truncated with a marker. The clipboard is NOT modified."@,
    {
        "Read the text content of the user's X11 clipboard (xclip -selection clipboard). Capped at 4KB; longer content is truncated with a marker. The clipboard is NOT modified."
    }

    /// The schema of the arguments.
    pub fn schema(&self) -> (r: Json)
        ensures
            r@ == Self::parameters(),
    {
        Json::object().with_text("type", "object").with("properties", Json::object())
    }
}

} // verus!
