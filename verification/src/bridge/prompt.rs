//! System prompts made of an agent's files, and context for a request.
//!
//! The static prompt has two layers: the identity, rendered from a template
//! with the agent's fields, and the principles. Live context is put before the
//! user's input.
use vstd::prelude::*;
use vstd::string::*;
use crate::paths::opt_str;
use crate::pieces::{take_chars, trimmed};
use crate::search::{at, lemma_find_none, replace, replace_all, trim};
use crate::text::{cat3, copy};

verus! {

/// What is known of an agent.
#[derive(Debug)]
pub struct AgentDef {
    pub name: String,
    pub role: String,
    pub team: String,
    pub focus: String,
    pub trust_tier: String,
    pub confirm_mode: String,
}

/// The trust tier of an agent that has none of its own.
pub fn default_trust_tier() -> (r: String)
    ensures
        r@ == "standard"@,
{
    copy("standard")
}

/// The confirmation mode of an agent that has none of its own.
pub fn default_confirm_mode() -> (r: String)
    ensures
        r@ == "confirm"@,
{
    copy("confirm")
}

/// A template with the agent's fields in place of their names in braces.
pub open spec fn rendered(template: Seq<char>, def: AgentDef) -> Seq<char> {
    let a = replace_all(template, "{name}"@, def.name@);
    let b = replace_all(a, "{role}"@, def.role@);
    let c = replace_all(b, "{team}"@, def.team@);
    let d = replace_all(c, "{focus}"@, def.focus@);
    let e = replace_all(d, "{trust_tier}"@, def.trust_tier@);
    replace_all(e, "{confirm_mode}"@, def.confirm_mode@)
}

/// Renders a template.
pub fn render_template(template: &str, def: &AgentDef) -> (r: String)
    ensures
        r@ == rendered(template@, *def),
{
    proof {
        reveal_strlit("{name}");
        reveal_strlit("{role}");
        reveal_strlit("{team}");
        reveal_strlit("{focus}");
        reveal_strlit("{trust_tier}");
        reveal_strlit("{confirm_mode}");
    }
    let a = replace(template, "{name}", def.name.as_str());
    let b = replace(a.as_str(), "{role}", def.role.as_str());
    let c = replace(b.as_str(), "{team}", def.team.as_str());
    let d = replace(c.as_str(), "{focus}", def.focus.as_str());
    let e = replace(d.as_str(), "{trust_tier}", def.trust_tier.as_str());
    replace(e.as_str(), "{confirm_mode}", def.confirm_mode.as_str())
}

/// A file's text without white space around it; nothing where it is missing.
pub open spec fn file_text(raw: Option<Seq<char>>) -> Seq<char> {
    match raw {
        Some(s) => trim(s),
        None => Seq::empty(),
    }
}

/// The two layers of a prompt, a blank line between them; `None` where both are
/// empty.
pub open spec fn layers(identity: Seq<char>, principles: Seq<char>) -> Option<Seq<char>> {
    if identity.len() == 0 && principles.len() == 0 {
        None
    } else if principles.len() == 0 {
        Some(identity)
    } else if identity.len() == 0 {
        Some(principles)
    } else {
        Some(identity + "\n\n"@ + principles)
    }
}

/// A file's text without white space around it; `None` where nothing is left.
pub fn read_trimmed(raw: Option<&str>) -> (r: Option<String>)
    ensures
        match r {
            Some(s) => raw is Some && s@ == trim(raw->0@) && s@.len() > 0,
            None => file_text(opt_str(raw)).len() == 0,
        },
{
    match raw {
        Some(s) => {
            let t = trimmed(s);
            if t.as_str().is_empty() {
                None
            } else {
                Some(t)
            }
        },
        None => None,
    }
}

fn text_or_nothing(raw: Option<&str>) -> (r: String)
    ensures
        r@ == file_text(opt_str(raw)),
{
    match read_trimmed(raw) {
        Some(s) => s,
        None => {
            let r = String::new();
            assert(r@ =~= file_text(opt_str(raw)));
            r
        },
    }
}

/// The static prompt of an agent, made of its definition, its template and its
/// principles; `None` where there is no definition or nothing to say.
pub fn build_static_prompt(
    def: Option<&AgentDef>,
    system_md: Option<&str>,
    principles_md: Option<&str>,
) -> (r: Option<String>)
    ensures
        crate::message::opt_text(r) == (match def {
            None => None,
            Some(d) => layers(
                rendered(file_text(opt_str(system_md)), *d),
                file_text(opt_str(principles_md)),
            ),
        }),
{
    let d = match def {
        Some(d) => d,
        None => {
            return None;
        },
    };
    let template = text_or_nothing(system_md);
    let identity = render_template(template.as_str(), d);
    let principles = text_or_nothing(principles_md);
    if identity.as_str().is_empty() && principles.as_str().is_empty() {
        None
    } else if principles.as_str().is_empty() {
        Some(identity)
    } else if identity.as_str().is_empty() {
        Some(principles)
    } else {
        Some(cat3(identity.as_str(), "\n\n", principles.as_str()))
    }
}

/// How much of a request goes into the query for related memories.
pub const QUERY_CHARS: usize = 60;

/// The query for related memories: the agent's name and the beginning of the
/// request.
pub open spec fn recall_query_text(agent: Seq<char>, input: Seq<char>) -> Seq<char> {
    agent + " "@ + (if input.len() <= QUERY_CHARS {
        input
    } else {
        input.take(QUERY_CHARS as int)
    })
}

/// The query for related memories.
pub fn recall_query(agent_name: &str, user_input: &str) -> (r: String)
    ensures
        r@ == recall_query_text(agent_name@, user_input@),
{
    let head = take_chars(user_input, QUERY_CHARS);
    cat3(agent_name, " ", head.as_str())
}

/// The context that a query found: its output without white space around it,
/// or nothing where the command failed or found nothing.
pub fn recall_context(succeeded: bool, stdout: &str) -> (r: Option<String>)
    ensures
        crate::message::opt_text(r) == (if succeeded && trim(stdout@).len() > 0 {
            Some(trim(stdout@))
        } else {
            None
        }),
{
    if !succeeded {
        return None;
    }
    let text = trimmed(stdout);
    if text.as_str().is_empty() {
        None
    } else {
        Some(text)
    }
}

/// A request with its context in front of it.
pub open spec fn augmented(input: Seq<char>, context: Option<Seq<char>>) -> Seq<char> {
    match context {
        Some(c) if c.len() > 0 => "[Context]\n"@ + c + "\n\n---\n"@ + input,
        _ => input,
    }
}

/// Puts context in front of a request, where there is any.
pub fn augment_user_input(user_input: &str, context: Option<&str>) -> (r: String)
    ensures
        r@ == augmented(user_input@, opt_str(context)),
{
    match context {
        Some(c) => if c.is_empty() {
            copy(user_input)
        } else {
            crate::text::cat4("[Context]\n", c, "\n\n---\n", user_input)
        },
        None => copy(user_input),
    }
}

/// A prompt has both layers, the identity first, with an empty line between them; one
/// alone stands for itself, and without either there is no prompt.
pub proof fn a_prompt_has_its_layers_in_order(identity: Seq<char>, principles: Seq<char>)
    ensures
        layers(Seq::empty(), Seq::empty()) is None,
        identity.len() > 0 ==> layers(identity, Seq::empty()) == Some(identity),
        principles.len() > 0 ==> layers(Seq::empty(), principles) == Some(principles),
        identity.len() > 0 && principles.len() > 0 ==> layers(identity, principles) == Some(
            identity.push('\n').push('\n') + principles,
        ),
{
    reveal_strlit("\n\n");
    assert(identity + "\n\n"@ + principles =~= identity.push('\n').push('\n') + principles);
}

/// The user's words come last and unchanged, after the recalled context where there is
/// any.
pub proof fn the_input_comes_last(input: Seq<char>, context: Seq<char>)
    ensures
        augmented(input, None) == input,
        augmented(input, Some(Seq::empty())) == input,
        context.len() > 0 ==> augmented(input, Some(context)) == "[Context]\n"@ + context
            + "\n\n---\n"@ + input,
{
}

/// A query names the agent and then what the user said, of which no more than the first
/// sixty characters count.
pub proof fn a_query_names_the_agent_first(agent: Seq<char>, input: Seq<char>, tail: Seq<char>)
    ensures
        input.len() <= 60 ==> recall_query_text(agent, input) == agent + " "@ + input,
        input.len() == 60 ==> recall_query_text(agent, input + tail) == agent + " "@ + input,
{
    if input.len() == 60 {
        assert((input + tail).take(60) =~= input);
        if tail.len() == 0 {
            assert(input + tail =~= input);
        }
    }
}

/// A template without placeholders stays as it is.
pub proof fn only_placeholders_are_filled_in(template: Seq<char>, def: AgentDef)
    requires
        plain(template),
    ensures
        rendered(template, def) == template,
{
    lemma_nothing_to_fill(template, "{name}"@, def.name@);
    lemma_nothing_to_fill(template, "{role}"@, def.role@);
    lemma_nothing_to_fill(template, "{team}"@, def.team@);
    lemma_nothing_to_fill(template, "{focus}"@, def.focus@);
    lemma_nothing_to_fill(template, "{trust_tier}"@, def.trust_tier@);
    lemma_nothing_to_fill(template, "{confirm_mode}"@, def.confirm_mode@);
}

/// Each placeholder is filled in with the value of its name, wherever it stands.
pub proof fn placeholders_hold_their_values(a: Seq<char>, b: Seq<char>, def: AgentDef)
    requires
        plain(a),
        plain(b),
        plain(def.name@),
        plain(def.role@),
        plain(def.team@),
        plain(def.focus@),
        plain(def.trust_tier@),
        plain(def.confirm_mode@),
    ensures
        rendered(a + "{name}"@ + b, def) == a + def.name@ + b,
        rendered(a + "{role}"@ + b, def) == a + def.role@ + b,
        rendered(a + "{team}"@ + b, def) == a + def.team@ + b,
        rendered(a + "{focus}"@ + b, def) == a + def.focus@ + b,
        rendered(a + "{trust_tier}"@ + b, def) == a + def.trust_tier@ + b,
        rendered(a + "{confirm_mode}"@ + b, def) == a + def.confirm_mode@ + b,
{
    lemma_placeholders();
    lemma_filled(a, "{name}"@, b, def.name@);
    lemma_filled(a, "{role}"@, b, def.role@);
    lemma_filled(a, "{team}"@, b, def.team@);
    lemma_filled(a, "{focus}"@, b, def.focus@);
    lemma_filled(a, "{trust_tier}"@, b, def.trust_tier@);
    lemma_filled(a, "{confirm_mode}"@, b, def.confirm_mode@);
    let r1 = a + def.name@ + b;
    let r2 = a + def.role@ + b;
    let r3 = a + def.team@ + b;
    let r4 = a + def.focus@ + b;
    let r5 = a + def.trust_tier@ + b;
    lemma_nothing_to_fill(r1, "{role}"@, def.role@);
    lemma_nothing_to_fill(r1, "{team}"@, def.team@);
    lemma_nothing_to_fill(r1, "{focus}"@, def.focus@);
    lemma_nothing_to_fill(r1, "{trust_tier}"@, def.trust_tier@);
    lemma_nothing_to_fill(r1, "{confirm_mode}"@, def.confirm_mode@);
    lemma_other(a, "{role}"@, b, "{name}"@, def.name@);
    lemma_nothing_to_fill(r2, "{team}"@, def.team@);
    lemma_nothing_to_fill(r2, "{focus}"@, def.focus@);
    lemma_nothing_to_fill(r2, "{trust_tier}"@, def.trust_tier@);
    lemma_nothing_to_fill(r2, "{confirm_mode}"@, def.confirm_mode@);
    lemma_other(a, "{team}"@, b, "{name}"@, def.name@);
    lemma_other(a, "{team}"@, b, "{role}"@, def.role@);
    lemma_nothing_to_fill(r3, "{focus}"@, def.focus@);
    lemma_nothing_to_fill(r3, "{trust_tier}"@, def.trust_tier@);
    lemma_nothing_to_fill(r3, "{confirm_mode}"@, def.confirm_mode@);
    lemma_other(a, "{focus}"@, b, "{name}"@, def.name@);
    lemma_other(a, "{focus}"@, b, "{role}"@, def.role@);
    lemma_other(a, "{focus}"@, b, "{team}"@, def.team@);
    lemma_nothing_to_fill(r4, "{trust_tier}"@, def.trust_tier@);
    lemma_nothing_to_fill(r4, "{confirm_mode}"@, def.confirm_mode@);
    lemma_other(a, "{trust_tier}"@, b, "{name}"@, def.name@);
    lemma_other(a, "{trust_tier}"@, b, "{role}"@, def.role@);
    lemma_other(a, "{trust_tier}"@, b, "{team}"@, def.team@);
    lemma_other(a, "{trust_tier}"@, b, "{focus}"@, def.focus@);
    lemma_nothing_to_fill(r5, "{confirm_mode}"@, def.confirm_mode@);
    lemma_other(a, "{confirm_mode}"@, b, "{name}"@, def.name@);
    lemma_other(a, "{confirm_mode}"@, b, "{role}"@, def.role@);
    lemma_other(a, "{confirm_mode}"@, b, "{team}"@, def.team@);
    lemma_other(a, "{confirm_mode}"@, b, "{focus}"@, def.focus@);
    lemma_other(a, "{confirm_mode}"@, b, "{trust_tier}"@, def.trust_tier@);
}

/// A text without braces that open.
pub open spec fn plain(s: Seq<char>) -> bool {
    forall|i: int| 0 <= i < s.len() ==> #[trigger] s[i] != '{'
}

spec fn placeholder(k: Seq<char>) -> bool {
    k.len() > 1 && k[0] == '{' && forall|i: int| 0 < i < k.len() ==> #[trigger] k[i] != '{'
}

proof fn lemma_placeholders()
    ensures
        placeholder("{name}"@),
        placeholder("{role}"@),
        placeholder("{team}"@),
        placeholder("{focus}"@),
        placeholder("{trust_tier}"@),
        placeholder("{confirm_mode}"@),
        "{name}"@[1] == 'n',
        "{role}"@[1] == 'r',
        "{team}"@[1] == 't',
        "{team}"@[2] == 'e',
        "{focus}"@[1] == 'f',
        "{trust_tier}"@[1] == 't',
        "{trust_tier}"@[2] == 'r',
        "{confirm_mode}"@[1] == 'c',
        "{team}"@.len() == 6,
        "{trust_tier}"@.len() == 12,
{
    reveal_strlit("{name}");
    reveal_strlit("{role}");
    reveal_strlit("{team}");
    reveal_strlit("{focus}");
    reveal_strlit("{trust_tier}");
    reveal_strlit("{confirm_mode}");
}

proof fn lemma_not_there(s: Seq<char>, key: Seq<char>)
    requires
        placeholder(key),
        forall|i: int| 0 <= i < s.len() && #[trigger] s[i] == '{' ==> !at(s, i, key),
    ensures
        forall|i: int| !at(s, i, key),
{
    assert forall|i: int| !at(s, i, key) by {
        if at(s, i, key) {
            assert(s.subrange(i, i + key.len())[0] == s[i]);
        }
    }
}

proof fn lemma_nothing_to_fill(s: Seq<char>, key: Seq<char>, value: Seq<char>)
    requires
        plain(s),
        key == "{name}"@ || key == "{role}"@ || key == "{team}"@ || key == "{focus}"@ || key
            == "{trust_tier}"@ || key == "{confirm_mode}"@,
    ensures
        replace_all(s, key, value) == s,
{
    lemma_placeholders();
    lemma_not_there(s, key);
    lemma_find_none(s, key, 0);
}

proof fn lemma_filled(a: Seq<char>, key: Seq<char>, b: Seq<char>, value: Seq<char>)
    requires
        plain(a),
        plain(b),
        placeholder(key),
    ensures
        replace_all(a + key + b, key, value) == a + value + b,
{
    let s = a + key + b;
    assert forall|i: int| 0 <= i < a.len() implies !at(s, i, key) by {
        if at(s, i, key) {
            assert(s.subrange(i, i + key.len())[0] == s[i]);
            assert(s[i] == a[i]);
        }
    }
    crate::text_laws::each_occurrence_is_replaced_once(a, key, b, value);
    lemma_not_there(b, key);
    lemma_find_none(b, key, 0);
}

proof fn lemma_other(a: Seq<char>, key: Seq<char>, b: Seq<char>, other: Seq<char>, value: Seq<char>)
    requires
        plain(a),
        plain(b),
        placeholder(key),
        placeholder(other),
        key[1] != other[1] || key.len() > 2 && other.len() > 2 && key[2] != other[2],
    ensures
        replace_all(a + key + b, other, value) == a + key + b,
{
    let s = a + key + b;
    let n = a.len() as int;
    assert forall|i: int| 0 <= i < s.len() && #[trigger] s[i] == '{' implies !at(s, i, other) by {
        if i < n {
            assert(s[i] == a[i]);
        } else if i >= n + key.len() {
            assert(s[i] == b[i - n - key.len()]);
        } else {
            assert(s[i] == key[i - n]);
            assert(i == n);
            if at(s, i, other) {
                assert(s.subrange(i, i + other.len())[1] == s[n + 1]);
                assert(s[n + 1] == key[1]);
                if key[1] == other[1] {
                    assert(s.subrange(i, i + other.len())[2] == s[n + 2]);
                    assert(s[n + 2] == key[2]);
                }
            }
        }
    }
    lemma_not_there(s, other);
    lemma_find_none(s, other, 0);
}

} // verus!
