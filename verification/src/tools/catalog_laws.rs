//! What the schemas of the tools ask for.
use vstd::prelude::*;
use crate::json::JVal;
use crate::tools::computer::{Click, FocusWindow, GetMouse, KeyCombo, Scroll, TypeText};
use crate::tools::desktop::{ClipboardGet, CurrentWindow, OpenApp, OpenUrl, Screenshot};
use crate::tools::dispatch::DispatchAgent;
use crate::tools::memory::{MemctlIngest, MemctlRecall};
use crate::tools::retrieval::{Rerank, SemanticSearch};
use crate::tools::search::WebSearch;
use crate::tools::vault::{VaultFind, VaultRecent};
use crate::tools::vision::LookAtScreen;

verus! {

/// A schema takes an object with these arguments, each of its type, in this order, and
/// cannot do without the required ones.
pub open spec fn takes(
    schema: JVal,
    args: Seq<(Seq<char>, Seq<char>)>,
    required: Option<Seq<Seq<char>>>,
) -> bool {
    let f = schema->Obj_0;
    let p = f[1].1->Obj_0;
    &&& schema is Obj
    &&& f[0] == ("type"@, JVal::Str("object"@))
    &&& f[1].0 == "properties"@
    &&& f[1].1 is Obj
    &&& p.len() == args.len()
    &&& forall|i: int|
        #![trigger args[i]]
        0 <= i < args.len() ==> {
            &&& p[i].0 == args[i].0
            &&& p[i].1 is Obj
            &&& p[i].1->Obj_0[0] == ("type"@, JVal::Str(args[i].1))
        }
    &&& match required {
        None => f.len() == 2,
        Some(names) => {
            &&& f.len() == 3
            &&& f[2].0 == "required"@
            &&& f[2].1 is Arr
            &&& f[2].1->Arr_0.len() == names.len()
            &&& forall|i: int|
                0 <= i < names.len() ==> #[trigger] f[2].1->Arr_0[i] == JVal::Str(names[i])
        },
    }
}

/// Tools that act on the desktop take what they act on.
pub proof fn acting_tools_take_what_they_act_on()
    ensures
        takes(
            Click::parameters(),
            seq![
                ("x"@, "integer"@),
                ("y"@, "integer"@),
                ("button"@, "string"@),
                ("double"@, "boolean"@),
            ],
            Some(seq!["x"@, "y"@]),
        ),
        takes(
            TypeText::parameters(),
            seq![("text"@, "string"@)],
            Some(seq!["text"@]),
        ),
        takes(
            KeyCombo::parameters(),
            seq![("combo"@, "string"@)],
            Some(seq!["combo"@]),
        ),
        takes(
            Scroll::parameters(),
            seq![("direction"@, "string"@), ("amount"@, "integer"@)],
            Some(seq!["direction"@]),
        ),
        takes(
            FocusWindow::parameters(),
            seq![("query"@, "string"@)],
            Some(seq!["query"@]),
        ),
{
}

/// Tools that only look take nothing, or an optional question.
pub proof fn looking_takes_nothing()
    ensures
        takes(
            GetMouse::parameters(),
            Seq::empty(),
            None,
        ),
        takes(
            Screenshot::parameters(),
            Seq::empty(),
            None,
        ),
        takes(
            CurrentWindow::parameters(),
            Seq::empty(),
            None,
        ),
        takes(
            ClipboardGet::parameters(),
            Seq::empty(),
            None,
        ),
        takes(
            LookAtScreen::parameters(),
            seq![("question"@, "string"@)],
            None,
        ),
{
}

/// Tools that open or hand over something take its name and what goes with it.
pub proof fn handing_over_takes_a_name()
    ensures
        takes(
            OpenApp::parameters(),
            seq![("name"@, "string"@)],
            Some(seq!["name"@]),
        ),
        takes(
            OpenUrl::parameters(),
            seq![("url"@, "string"@)],
            Some(seq!["url"@]),
        ),
        takes(
            DispatchAgent::parameters(),
            seq![("agent_name"@, "string"@), ("task"@, "string"@), ("timeout_ms"@, "integer"@)],
            Some(seq!["agent_name"@, "task"@]),
        ),
{
}

/// Tools that look things up take what is looked for.
pub proof fn looking_up_takes_a_query()
    ensures
        takes(
            MemctlRecall::parameters(),
            seq![("query"@, "string"@), ("limit"@, "integer"@)],
            Some(seq!["query"@]),
        ),
        takes(
            MemctlIngest::parameters(),
            seq![("content"@, "string"@), ("kind"@, "string"@), ("scope"@, "string"@)],
            Some(seq!["content"@, "kind"@, "scope"@]),
        ),
        takes(
            SemanticSearch::parameters(),
            seq![("query"@, "string"@), ("documents"@, "array"@), ("top_k"@, "integer"@)],
            Some(seq!["query"@, "documents"@]),
        ),
        takes(
            Rerank::parameters(),
            seq![("query"@, "string"@), ("passages"@, "array"@), ("top_k"@, "integer"@)],
            Some(seq!["query"@, "passages"@]),
        ),
        takes(
            WebSearch::parameters(),
            seq![("query"@, "string"@), ("max_results"@, "integer"@)],
            Some(seq!["query"@]),
        ),
        takes(
            VaultRecent::parameters(),
            seq![("n"@, "integer"@)],
            Some(Seq::empty()),
        ),
        takes(
            VaultFind::parameters(),
            seq![
                ("project"@, "string"@),
                ("tags"@, "string"@),
                ("type"@, "string"@),
                ("status"@, "string"@),
                ("title_contains"@, "string"@),
                ("limit"@, "integer"@),
            ],
            Some(Seq::empty()),
        ),
{
}

} // verus!
