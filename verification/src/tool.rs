//! Tools that the model may call, and the registry that dispatches to them.
use std::sync::Arc;
use vstd::prelude::*;
use crate::json::{lemma_arr_view, items_view, JVal, Json};
use crate::search::texts;
use crate::pieces::lemma_texts_push;
use crate::text::{cat2, copy, same};

verus! {

/// The text of a tool's answer.
pub open spec fn answer_view(r: Result<String, String>) -> Result<Seq<char>, Seq<char>> {
    match r {
        Ok(s) => Ok(s@),
        Err(e) => Err(e@),
    }
}

/// A capability that the model can invoke.
pub trait Tool: Send + Sync {
    /// The name under which the tool is called.
    open spec fn tool_name(&self) -> Seq<char> {
        Seq::empty()
    }

    /// The text that tells the model what the tool does.
    open spec fn about(&self) -> Seq<char> {
        Seq::empty()
    }

    /// The JSON schema of the arguments.
    open spec fn parameters(&self) -> JVal {
        JVal::Null
    }

    /// Whether the tool may answer the arguments in this way.
    open spec fn may_answer(&self, args: JVal, answer: Result<Seq<char>, Seq<char>>) -> bool {
        true
    }

    fn name(&self) -> (r: String)
        ensures
            r@ == self.tool_name(),
    ;

    fn description(&self) -> (r: String)
        ensures
            r@ == self.about(),
    ;

    fn schema(&self) -> (r: Json)
        ensures
            r@ == self.parameters(),
    ;

    /// Runs the tool.
    fn call(&self, args: Json) -> (r: Result<String, String>)
        ensures
            self.may_answer(args@, answer_view(r)),
    ;
}

/// A tool with an argument type and a result type of its own. Reading the
/// arguments from JSON and writing the result as text belong to the types.
pub trait TypedTool: Send + Sync {
    type Args;

    type Output;

    open spec fn tool_name() -> Seq<char> {
        Seq::empty()
    }

    open spec fn about() -> Seq<char> {
        Seq::empty()
    }

    open spec fn parameters() -> JVal {
        JVal::Null
    }

    /// Whether reading the arguments may give this.
    open spec fn may_read(args: JVal, r: Result<Self::Args, Seq<char>>) -> bool {
        true
    }

    /// Whether the tool may answer the arguments in this way.
    open spec fn may_return(&self, args: Self::Args, r: Result<Self::Output, Seq<char>>) -> bool {
        true
    }

    /// Whether the result may be written in this way.
    open spec fn may_write(out: Self::Output, r: Result<Seq<char>, Seq<char>>) -> bool {
        true
    }

    fn name() -> (r: String)
        ensures
            r@ == Self::tool_name(),
    ;

    fn description() -> (r: String)
        ensures
            r@ == Self::about(),
    ;

    fn schema() -> (r: Json)
        ensures
            r@ == Self::parameters(),
    ;

    fn read_args(args: Json) -> (r: Result<Self::Args, String>)
        ensures
            Self::may_read(
                args@,
                match r {
                    Ok(a) => Ok(a),
                    Err(e) => Err(e@),
                },
            ),
    ;

    fn call(&self, args: Self::Args) -> (r: Result<Self::Output, String>)
        ensures
            self.may_return(
                args,
                match r {
                    Ok(o) => Ok(o),
                    Err(e) => Err(e@),
                },
            ),
    ;

    fn write_output(out: Self::Output) -> (r: Result<String, String>)
        ensures
            Self::may_write(out, answer_view(r)),
    ;
}

/// Makes a [`Tool`] of a [`TypedTool`].
pub struct ErasedAdapter<T: TypedTool> {
    inner: T,
}

impl<T: TypedTool> ErasedAdapter<T> {
    pub closed spec fn wrapped(&self) -> T {
        self.inner
    }

    pub fn new(inner: T) -> (r: Self)
        ensures
            r.wrapped() == inner,
    {
        ErasedAdapter { inner }
    }

    /// The typed tool.
    pub fn inner(&self) -> (r: &T)
        ensures
            *r == self.wrapped(),
    {
        &self.inner
    }
}

/// The answer of an adapted tool: reading, running and writing in turn, with
/// the first failure as the answer.
pub open spec fn adapted_answer<T: TypedTool>(
    tool: T,
    args: JVal,
    answer: Result<Seq<char>, Seq<char>>,
) -> bool {
    ||| exists|e: Seq<char>|
        #![trigger T::may_read(args, Err(e))]
        T::may_read(args, Err(e)) && answer == Err::<Seq<char>, Seq<char>>(
            "args deserialize: "@ + e,
        )
    ||| exists|a: T::Args, e: Seq<char>|
        #![trigger T::may_read(args, Ok(a)), tool.may_return(a, Err(e))]
        T::may_read(args, Ok(a)) && tool.may_return(a, Err(e)) && answer == Err::<
            Seq<char>,
            Seq<char>,
        >(e)
    ||| exists|a: T::Args, o: T::Output, w: Result<Seq<char>, Seq<char>>|
        #![trigger T::may_read(args, Ok(a)), tool.may_return(a, Ok(o)), T::may_write(o, w)]
        T::may_read(args, Ok(a)) && tool.may_return(a, Ok(o)) && T::may_write(o, w) && answer
            == (match w {
            Ok(s) => Ok::<Seq<char>, Seq<char>>(s),
            Err(e) => Err::<Seq<char>, Seq<char>>("output serialize: "@ + e),
        })
}

impl<T: TypedTool> Tool for ErasedAdapter<T> {
    open spec fn tool_name(&self) -> Seq<char> {
        T::tool_name()
    }

    open spec fn about(&self) -> Seq<char> {
        T::about()
    }

    open spec fn parameters(&self) -> JVal {
        T::parameters()
    }

    open spec fn may_answer(&self, args: JVal, answer: Result<Seq<char>, Seq<char>>) -> bool {
        adapted_answer::<T>(self.wrapped(), args, answer)
    }

    fn name(&self) -> (r: String) {
        T::name()
    }

    fn description(&self) -> (r: String) {
        T::description()
    }

    fn schema(&self) -> (r: Json) {
        T::schema()
    }

    fn call(&self, args: Json) -> (r: Result<String, String>) {
        let typed = match T::read_args(args) {
            Ok(a) => a,
            Err(e) => {
                return Err(cat2("args deserialize: ", e.as_str()));
            },
        };
        let out = match self.inner.call(typed) {
            Ok(o) => o,
            Err(e) => {
                return Err(e);
            },
        };
        match T::write_output(out) {
            Ok(s) => Ok(s),
            Err(e) => Err(cat2("output serialize: ", e.as_str())),
        }
    }
}

/// Something with a name, a description and a schema.
pub struct Described<A> {
    pub name: String,
    pub description: String,
    pub schema: Json,
    pub tool: A,
}

/// Keeps something together with its description.
pub fn described<A>(name: String, description: String, schema: Json, tool: A) -> (r: Described<A>)
    ensures
        r == (Described { name, description, schema, tool }),
{
    Described { name, description, schema, tool }
}

/// A tool with what it says of itself.
pub type Registered = Described<Box<dyn Tool>>;

/// A collection of tools with dispatch by name.
pub struct Registry {
    tools: Vec<Registered>,
}

impl View for Registry {
    type V = Seq<Registered>;

    closed spec fn view(&self) -> Seq<Registered> {
        self.tools@
    }
}

/// Position of the first tool with a name at or after `i`, or the length.
pub open spec fn tool_pos(tools: Seq<Registered>, name: Seq<char>, i: int) -> int
    decreases tools.len() - i,
{
    if i < 0 || i >= tools.len() {
        tools.len() as int
    } else if tools[i].name@ == name {
        i
    } else {
        tool_pos(tools, name, i + 1)
    }
}

/// One entry of the tool list that the model receives.
pub open spec fn tool_entry(name: Seq<char>, about: Seq<char>, parameters: JVal) -> JVal {
    JVal::object().with("type"@, JVal::Str("function"@)).with(
        "function"@,
        JVal::object().with("name"@, JVal::Str(name)).with("description"@, JVal::Str(about)).with(
            "parameters"@,
            parameters,
        ),
    )
}

impl Registry {
    /// Whether the registry may answer a call in this way: the first tool of that
    /// name answers, and without one the answer is an error.
    pub open spec fn may_dispatch(
        &self,
        name: Seq<char>,
        args: JVal,
        answer: Result<Seq<char>, Seq<char>>,
    ) -> bool {
        let i = tool_pos(self@, name, 0);
        if 0 <= i < self@.len() {
            self@[i].tool.may_answer(args, answer)
        } else {
            answer == Err::<Seq<char>, Seq<char>>("unknown tool: "@ + name)
        }
    }

    pub fn new() -> (r: Registry)
        ensures
            r@.len() == 0,
    {
        Registry { tools: Vec::new() }
    }

    /// Adds a tool at the end. Its name, description and schema depend on the tool
    /// alone, so it is asked for them once.
    pub fn register(&mut self, tool: Box<dyn Tool>)
        ensures
            final(self)@.len() == old(self)@.len() + 1,
            final(self)@.drop_last() == old(self)@,
            final(self)@.last().name@ == tool.tool_name(),
            final(self)@.last().description@ == tool.about(),
            final(self)@.last().schema@ == tool.parameters(),
            final(self)@.last().tool == tool,
    {
        let entry = described(tool.name(), tool.description(), tool.schema(), tool);
        self.add(entry);
        assert(self@.drop_last() =~= old(self)@);
    }

    /// Adds a tool whose description was already taken.
    pub fn add(&mut self, entry: Registered)
        ensures
            final(self)@ == old(self)@.push(entry),
    {
        self.tools.push(entry);
    }

    /// Adds tools at the end.
    pub fn register_all(&mut self, tools: Vec<Registered>)
        ensures
            final(self)@ == old(self)@ + tools@,
    {
        let mut more = tools;
        self.tools.append(&mut more);
    }

    /// Adds a typed tool at the end, behind an [`ErasedAdapter`]: a call reads the
    /// arguments, runs the tool and writes its result.
    pub fn register_typed<T: TypedTool + 'static>(&mut self, tool: T)
        ensures
            final(self)@.len() == old(self)@.len() + 1,
            final(self)@.drop_last() == old(self)@,
            final(self)@.last().name@ == T::tool_name(),
            final(self)@.last().description@ == T::about(),
            final(self)@.last().schema@ == T::parameters(),
            forall|args: JVal, answer: Result<Seq<char>, Seq<char>>| #[trigger]
                final(self)@.last().tool.may_answer(args, answer) == adapted_answer::<T>(
                    tool,
                    args,
                    answer,
                ),
    {
        let adapter = ErasedAdapter::new(tool);
        let boxed: Box<dyn Tool> = Box::new(adapter);
        assert(forall|args: JVal, answer: Result<Seq<char>, Seq<char>>| #[trigger]
            boxed.may_answer(args, answer) == adapter.may_answer(args, answer));
        let entry = described(T::name(), T::description(), T::schema(), boxed);
        self.add(entry);
        assert(self@.drop_last() =~= old(self)@);
    }

    /// Runs the first tool of that name.
    pub fn dispatch(&self, name: &str, args: Json) -> (r: Result<String, String>)
        ensures
            self.may_dispatch(name@, args@, answer_view(r)),
    {
        let n: usize = self.tools.len();
        let mut i: usize = 0;
        while i < n
            invariant
                i <= n,
                n == self.tools@.len(),
                tool_pos(self.tools@, name@, 0) == tool_pos(self.tools@, name@, i as int),
            decreases n - i,
        {
            if same(self.tools[i].name.as_str(), name) {
                return self.tools[i].tool.call(args);
            }
            i += 1;
        }
        Err(cat2("unknown tool: ", name))
    }

    /// The tools' names in registration order.
    pub fn names(&self) -> (r: Vec<String>)
        ensures
            texts(r@) == Seq::new(self@.len(), |i: int| self@[i].name@),
    {
        let mut out: Vec<String> = Vec::new();
        let n: usize = self.tools.len();
        let mut i: usize = 0;
        let ghost all = Seq::new(self@.len(), |i: int| self@[i].name@);
        while i < n
            invariant
                i <= n,
                n == self.tools@.len(),
                all == Seq::new(self@.len(), |i: int| self@[i].name@),
                texts(out@) == all.take(i as int),
            decreases n - i,
        {
            let s = copy(self.tools[i].name.as_str());
            proof {
                lemma_texts_push(out@, s);
            }
            out.push(s);
            assert(texts(out@) =~= all.take(i as int + 1));
            i += 1;
        }
        assert(texts(out@) =~= all);
        out
    }

    /// The tool list in the form of the OpenAI function-calling interface.
    pub fn as_openai_tools(&self) -> (r: Json)
        ensures
            r@ == JVal::Arr(
                Seq::new(
                    self@.len(),
                    |i: int|
                        tool_entry(self@[i].name@, self@[i].description@, self@[i].schema@),
                ),
            ),
    {
        let mut out: Vec<Json> = Vec::new();
        let n: usize = self.tools.len();
        let mut i: usize = 0;
        let ghost all = Seq::new(
            self@.len(),
            |i: int| tool_entry(self@[i].name@, self@[i].description@, self@[i].schema@),
        );
        while i < n
            invariant
                i <= n,
                n == self.tools@.len(),
                all == Seq::new(
                    self@.len(),
                    |i: int| tool_entry(self@[i].name@, self@[i].description@, self@[i].schema@),
                ),
                items_view(out@) == all.take(i as int),
                out@.len() == i,
            decreases n - i,
        {
            let t = &self.tools[i];
            let entry = entry_of(t.name.as_str(), t.description.as_str(), t.schema.clone());
            out.push(entry);
            assert(items_view(out@) =~= all.take(i as int + 1));
            i += 1;
        }
        assert(items_view(out@) =~= all);
        proof {
            lemma_arr_view(out);
        }
        Json::Arr(out)
    }

    /// Tools that hand their calls to the tools of a shared registry.
    pub fn make_proxies(registry: &Arc<Registry>) -> (r: Vec<RegistryProxy>)
        ensures
            r@.len() == registry@.len(),
            forall|i: int|
                0 <= i < r@.len() ==> {
                    &&& (#[trigger] r@[i]).tool_name() == registry@[i].name@
                    &&& r@[i].about() == registry@[i].description@
                    &&& r@[i].parameters() == registry@[i].schema@
                    &&& forall|args: JVal, answer: Result<Seq<char>, Seq<char>>| #[trigger]
                        r@[i].may_answer(args, answer) == registry.may_dispatch(
                            registry@[i].name@,
                            args,
                            answer,
                        )
                },
    {
        let mut out: Vec<RegistryProxy> = Vec::new();
        let n: usize = registry.tools.len();
        let mut i: usize = 0;
        while i < n
            invariant
                i <= n,
                n == registry.tools@.len(),
                out@.len() == i,
                forall|j: int|
                    0 <= j < i ==> {
                        &&& (#[trigger] out@[j]).name@ == registry@[j].name@
                        &&& out@[j].description@ == registry@[j].description@
                        &&& out@[j].schema@ == registry@[j].schema@
                        &&& out@[j].registry == *registry
                    },
            decreases n - i,
        {
            let t = &registry.tools[i];
            let proxy = RegistryProxy {
                registry: Arc::clone(registry),
                name: copy(t.name.as_str()),
                description: copy(t.description.as_str()),
                schema: t.schema.clone(),
            };
            out.push(proxy);
            i += 1;
        }
        out
    }
}

/// One entry of the tool list.
pub fn entry_of(name: &str, about: &str, parameters: Json) -> (r: Json)
    ensures
        r@ == tool_entry(name@, about@, parameters@),
{
    let function = Json::object().with_text("name", name).with_text("description", about).with(
        "parameters",
        parameters,
    );
    Json::object().with_text("type", "function").with("function", function)
}

impl Default for Registry {
    fn default() -> (r: Registry)
        ensures
            r@.len() == 0,
    {
        Registry::new()
    }
}

/// Stands for a tool of a shared registry.
pub struct RegistryProxy {
    registry: Arc<Registry>,
    name: String,
    description: String,
    schema: Json,
}

impl RegistryProxy {
    pub closed spec fn shared(&self) -> Registry {
        *self.registry
    }

    pub closed spec fn shown_name(&self) -> Seq<char> {
        self.name@
    }

    pub closed spec fn shown_about(&self) -> Seq<char> {
        self.description@
    }

    pub closed spec fn shown_parameters(&self) -> JVal {
        self.schema@
    }
}

impl Tool for RegistryProxy {
    open spec fn tool_name(&self) -> Seq<char> {
        self.shown_name()
    }

    open spec fn about(&self) -> Seq<char> {
        self.shown_about()
    }

    open spec fn parameters(&self) -> JVal {
        self.shown_parameters()
    }

    open spec fn may_answer(&self, args: JVal, answer: Result<Seq<char>, Seq<char>>) -> bool {
        self.shared().may_dispatch(self.shown_name(), args, answer)
    }

    fn name(&self) -> (r: String) {
        copy(self.name.as_str())
    }

    fn description(&self) -> (r: String) {
        copy(self.description.as_str())
    }

    fn schema(&self) -> (r: Json) {
        self.schema.clone()
    }

    fn call(&self, args: Json) -> (r: Result<String, String>) {
        self.registry.dispatch(self.name.as_str(), args)
    }
}

/// A call goes to the first tool of its name, and to no other; where there is none, the
/// answer says so.
pub proof fn a_call_goes_to_the_first_tool_of_its_name(
    r: Registry,
    name: Seq<char>,
    i: int,
    args: JVal,
    answer: Result<Seq<char>, Seq<char>>,
)
    ensures
        0 <= i < r@.len() && r@[i].name@ == name && (forall|j: int|
            0 <= j < i ==> (#[trigger] r@[j]).name@ != name) ==> r.may_dispatch(name, args, answer)
            == r@[i].tool.may_answer(args, answer),
        (forall|j: int| 0 <= j < r@.len() ==> (#[trigger] r@[j]).name@ != name) ==> (
        r.may_dispatch(name, args, answer) <==> answer == Err::<Seq<char>, Seq<char>>(
            "unknown tool: "@ + name,
        )),
{
    lemma_tool_pos(r@, name, 0);
    let k = tool_pos(r@, name, 0);
    if 0 <= i < r@.len() && r@[i].name@ == name && forall|j: int|
        0 <= j < i ==> (#[trigger] r@[j]).name@ != name {
        if k < i {
            assert(r@[k].name@ != name);
        } else if k > i {
            assert(r@[i].name@ != name);
        }
    }
}

proof fn lemma_tool_pos(tools: Seq<Registered>, name: Seq<char>, i: int)
    requires
        0 <= i <= tools.len(),
    ensures
        i <= tool_pos(tools, name, i) <= tools.len(),
        tool_pos(tools, name, i) < tools.len() ==> tools[tool_pos(tools, name, i)].name@ == name,
        forall|j: int| i <= j < tool_pos(tools, name, i) ==> (#[trigger] tools[j]).name@ != name,
    decreases tools.len() - i,
{
    if i < tools.len() && tools[i].name@ != name {
        lemma_tool_pos(tools, name, i + 1);
    }
}

/// A tool is listed as a function with its name, its description and its parameters.
pub proof fn a_tool_is_listed_as_a_function(
    name: Seq<char>,
    about: Seq<char>,
    parameters: JVal,
)
    ensures
        ({
            let e = tool_entry(name, about, parameters);
            let f = e->Obj_0[1].1->Obj_0;
            &&& e is Obj
            &&& e->Obj_0.len() == 2
            &&& e->Obj_0[0] == ("type"@, JVal::Str("function"@))
            &&& e->Obj_0[1].0 == "function"@
            &&& f.len() == 3
            &&& f[0] == ("name"@, JVal::Str(name))
            &&& f[1] == ("description"@, JVal::Str(about))
            &&& f[2] == ("parameters"@, parameters)
        }),
{
}

/// What a typed tool answers goes by what reading, running and writing give: where each
/// can give one thing only, the answer is that of the last, and the first that fails
/// is the answer, marked by its stage unless it is the tool's own.
pub proof fn a_typed_tool_answers_stage_by_stage<T: TypedTool>(
    tool: T,
    args: JVal,
    answer: Result<Seq<char>, Seq<char>>,
    a: T::Args,
    o: T::Output,
    e: Seq<char>,
)
    requires
        adapted_answer::<T>(tool, args, answer),
    ensures
        (forall|r: Result<T::Args, Seq<char>>| #[trigger] T::may_read(args, r) ==> r == Err::<
            T::Args,
            Seq<char>,
        >(e)) ==> answer == Err::<Seq<char>, Seq<char>>("args deserialize: "@ + e),
        (forall|r: Result<T::Args, Seq<char>>| #[trigger] T::may_read(args, r) ==> r == Ok::<
            T::Args,
            Seq<char>,
        >(a)) && (forall|r: Result<T::Output, Seq<char>>| #[trigger]
            tool.may_return(a, r) ==> r == Err::<T::Output, Seq<char>>(e)) ==> answer == Err::<
            Seq<char>,
            Seq<char>,
        >(e),
        (forall|r: Result<T::Args, Seq<char>>| #[trigger] T::may_read(args, r) ==> r == Ok::<
            T::Args,
            Seq<char>,
        >(a)) && (forall|r: Result<T::Output, Seq<char>>| #[trigger]
            tool.may_return(a, r) ==> r == Ok::<T::Output, Seq<char>>(o)) && (forall|
            r: Result<Seq<char>, Seq<char>>,
        | #[trigger]
            T::may_write(o, r) ==> r == Ok::<Seq<char>, Seq<char>>(e)) ==> answer == Ok::<
            Seq<char>,
            Seq<char>,
        >(e),
        (forall|r: Result<T::Args, Seq<char>>| #[trigger] T::may_read(args, r) ==> r == Ok::<
            T::Args,
            Seq<char>,
        >(a)) && (forall|r: Result<T::Output, Seq<char>>| #[trigger]
            tool.may_return(a, r) ==> r == Ok::<T::Output, Seq<char>>(o)) && (forall|
            r: Result<Seq<char>, Seq<char>>,
        | #[trigger]
            T::may_write(o, r) ==> r == Err::<Seq<char>, Seq<char>>(e)) ==> answer == Err::<
            Seq<char>,
            Seq<char>,
        >("output serialize: "@ + e),
{
}

} // verus!
