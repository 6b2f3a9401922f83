//! What is generated for a function that is made a tool: its names, its types and
//! its description, or why it cannot be a tool.
use vstd::prelude::*;
use vstd::string::*;
use crate::decimal::{dec, decimal};
use crate::pieces::{join_texts, lemma_texts_push, trimmed};
use crate::search::{join, texts, trim};
use crate::text::{cat3, chars_of, copy, same};

verus! {

/// The upper-case form of a character.
pub uninterp spec fn uppercase(c: char) -> Seq<char>;

/// `char::to_uppercase`: the upper-case form of the character, by the Unicode
/// tables; it may be more than one character, and depends on the character alone.
#[verifier::external_body]
fn to_upper(c: char) -> (r: String)
    ensures
        r@ == uppercase(c),
{
    c.to_uppercase().to_string()
}

/// The words of a name, each begun in upper case, without what separates them.
/// `start` says whether a word begins.
pub open spec fn pascal(s: Seq<char>, start: bool) -> Seq<char>
    decreases s.len(),
{
    if s.len() == 0 {
        Seq::empty()
    } else if s[0] == '_' {
        pascal(s.drop_first(), true)
    } else if start {
        uppercase(s[0]) + pascal(s.drop_first(), false)
    } else {
        seq![s[0]] + pascal(s.drop_first(), false)
    }
}

/// The name of the type of a tool.
pub open spec fn pascal_name(s: Seq<char>) -> Seq<char> {
    if pascal(s, true).len() == 0 {
        "_Tool"@
    } else {
        pascal(s, true)
    }
}

/// The name of the type of a tool: `read_file` gives `ReadFile`.
pub fn snake_to_pascal(s: &str) -> (r: String)
    ensures
        r@ == pascal_name(s@),
{
    let v = chars_of(s);
    let n: usize = v.len();
    let mut out = String::new();
    let mut upper: bool = true;
    let mut i: usize = 0;
    assert(s@.skip(0) =~= s@);
    assert(out@ + pascal(s@, true) =~= pascal(s@, true));
    while i < n
        invariant
            i <= n,
            v@ == s@,
            n == v@.len(),
            out@ + pascal(s@.skip(i as int), upper) == pascal(s@, true),
        decreases n - i,
    {
        let c = v[i];
        let ghost rest = s@.skip(i as int);
        let ghost before = out@;
        proof {
            assert(rest[0] == c);
            assert(rest.drop_first() =~= s@.skip(i + 1));
        }
        if c == '_' {
            upper = true;
        } else if upper {
            let u = to_upper(c);
            out.append(u.as_str());
            upper = false;
            assert(before + (uppercase(c) + pascal(rest.drop_first(), false)) =~= out@ + pascal(
                rest.drop_first(),
                false,
            ));
        } else {
            out.push(c);
            assert(before + (seq![c] + pascal(rest.drop_first(), false)) =~= out@ + pascal(
                rest.drop_first(),
                false,
            ));
        }
        i += 1;
    }
    assert(s@.skip(n as int) =~= Seq::empty());
    assert(out@ =~= pascal(s@, true));
    if out.as_str().is_empty() {
        copy("_Tool")
    } else {
        out
    }
}

/// A result type: nothing, a path with the name and the type arguments of its last
/// part, or something else.
pub enum ReturnShape {
    Missing,
    Path { last: String, angle_brackets: bool, types: Vec<String> },
    Other,
}

/// What is read of a function.
pub struct Signature {
    pub name: String,
    /// How many parameters it has.
    pub inputs: usize,
    /// The type of the first parameter; `None` where that is `self`.
    pub first: Option<String>,
    pub output: ReturnShape,
    /// The lines of its doc comment.
    pub docs: Vec<String>,
}

/// What is generated.
#[derive(Debug)]
pub struct Expansion {
    pub struct_name: String,
    pub name: String,
    pub description: String,
    pub args_ty: String,
    pub output_ty: String,
    pub error_ty: String,
}

/// What a function's result has to be.
pub const RESULT_SHAPE: &'static str = "#[tool] functions must return Result<Output, Error> (fully-qualified paths like std::result::Result are also accepted)";

/// The doc comment as one line: its lines without white space around them, joined
/// by spaces.
pub open spec fn doc_text(docs: Seq<Seq<char>>) -> Seq<char> {
    trim(join(docs.map_values(|d: Seq<char>| trim(d)), " "@))
}

/// The doc comment as one line, or `None` where nothing is left of it.
pub fn extract_doc(docs: &Vec<String>) -> (r: Option<String>)
    ensures
        match r {
            Some(s) => s@ == doc_text(texts(docs@)) && s@.len() > 0,
            None => doc_text(texts(docs@)).len() == 0,
        },
{
    let mut parts: Vec<String> = Vec::new();
    let n: usize = docs.len();
    let mut i: usize = 0;
    let ghost all = texts(docs@).map_values(|d: Seq<char>| trim(d));
    while i < n
        invariant
            i <= n,
            n == docs@.len(),
            all == texts(docs@).map_values(|d: Seq<char>| trim(d)),
            texts(parts@) == all.take(i as int),
        decreases n - i,
    {
        let t = trimmed(docs[i].as_str());
        proof {
            lemma_texts_push(parts@, t);
            assert(texts(docs@)[i as int] == docs@[i as int]@);
        }
        parts.push(t);
        assert(texts(parts@) =~= all.take(i as int + 1));
        i += 1;
    }
    assert(texts(parts@) =~= all);
    let joined = join_texts(&parts, " ");
    let text = trimmed(joined.as_str());
    if text.as_str().is_empty() {
        None
    } else {
        Some(text)
    }
}

/// The two types of a result, if it is one.
pub open spec fn result_types(r: ReturnShape) -> Result<(Seq<char>, Seq<char>), Seq<char>> {
    match r {
        ReturnShape::Missing => Err("#[tool] functions must return Result<Output, Error>"@),
        ReturnShape::Other => Err(RESULT_SHAPE@),
        ReturnShape::Path { last, angle_brackets, types } => if last@ == "Result"@ && angle_brackets
            && types@.len() >= 2 {
            Ok((types@[0]@, types@[1]@))
        } else {
            Err(RESULT_SHAPE@)
        },
    }
}

/// The two types of a result, or why it is none.
pub fn extract_result_types(output: &ReturnShape) -> (r: Result<(String, String), String>)
    ensures
        match r {
            Ok(t) => result_types(*output) is Ok && result_types(*output)->Ok_0 == (t.0@, t.1@),
            Err(e) => result_types(*output) is Err && result_types(*output)->Err_0 == e@,
        },
{
    match output {
        ReturnShape::Missing => Err(copy("#[tool] functions must return Result<Output, Error>")),
        ReturnShape::Other => Err(copy(RESULT_SHAPE)),
        ReturnShape::Path { last, angle_brackets, types } => if same(last.as_str(), "Result")
            && *angle_brackets && types.len() >= 2 {
            Ok((copy(types[0].as_str()), copy(types[1].as_str())))
        } else {
            Err(copy(RESULT_SHAPE))
        },
    }
}

/// Why a function cannot be a tool, if it cannot.
pub open spec fn objection(f: Signature) -> Option<Seq<char>> {
    if f.inputs != 1 {
        Some(
            "#[tool] expects exactly one function argument (got "@ + dec(f.inputs as nat)
                + "); the argument type becomes TypedTool::Args"@,
        )
    } else if f.first is None {
        Some("#[tool] cannot be applied to methods taking `self`"@)
    } else {
        match result_types(f.output) {
            Ok(_) => None,
            Err(e) => Some(e),
        }
    }
}

/// What is generated for a function, or why it cannot be a tool. Without a doc
/// comment the function's name describes it.
pub fn expand_tool(f: &Signature) -> (r: Result<Expansion, String>)
    ensures
        match r {
            Ok(x) => {
                &&& objection(*f) is None
                &&& x.struct_name@ == pascal_name(f.name@)
                &&& x.name@ == f.name@
                &&& x.args_ty@ == f.first->0@
                &&& (x.output_ty@, x.error_ty@) == result_types(f.output)->Ok_0
                &&& x.description@ == (if doc_text(texts(f.docs@)).len() == 0 {
                    f.name@
                } else {
                    doc_text(texts(f.docs@))
                })
            },
            Err(e) => objection(*f) == Some(e@),
        },
{
    if f.inputs != 1 {
        let n = decimal(f.inputs as u64);
        return Err(
            cat3(
                "#[tool] expects exactly one function argument (got ",
                n.as_str(),
                "); the argument type becomes TypedTool::Args",
            ),
        );
    }
    let args_ty = match &f.first {
        Some(t) => copy(t.as_str()),
        None => {
            return Err(copy("#[tool] cannot be applied to methods taking `self`"));
        },
    };
    match extract_result_types(&f.output) {
        Ok((output_ty, error_ty)) => {
            let description = match extract_doc(&f.docs) {
                Some(d) => d,
                None => copy(f.name.as_str()),
            };
            Ok(
                Expansion {
                    struct_name: snake_to_pascal(f.name.as_str()),
                    name: copy(f.name.as_str()),
                    description,
                    args_ty,
                    output_ty,
                    error_ty,
                },
            )
        },
        Err(e) => Err(e),
    }
}

/// Underscores are left out and make the character after them large, as the first one
/// is; every other character stays as it is.
pub proof fn every_part_of_a_name_begins_large(s: Seq<char>, c: char)
    requires
        c != '_',
    ensures
        pascal(Seq::empty(), true) == Seq::<char>::empty(),
        pascal(seq!['_'] + s, false) == pascal(s, true),
        pascal(seq!['_'] + s, true) == pascal(s, true),
        pascal(seq![c] + s, true) == uppercase(c) + pascal(s, false),
        pascal(seq![c] + s, false) == seq![c] + pascal(s, false),
        pascal(s, true).len() > 0 ==> pascal_name(s) == pascal(s, true),
        pascal(s, true).len() == 0 ==> pascal_name(s) == "_Tool"@,
{
    let a = seq!['_'] + s;
    assert(a[0] == '_');
    assert(a.drop_first() =~= s);
    let b = seq![c] + s;
    assert(b[0] == c);
    assert(b.drop_first() =~= s);
}

/// A function can be made a tool when it takes one argument that is not `self` and
/// returns a `Result` with both its types.
pub proof fn a_tool_takes_one_argument_and_may_fail(f: Signature)
    ensures
        objection(f) is None <==> {
            &&& f.inputs == 1
            &&& f.first is Some
            &&& f.output is Path
            &&& f.output->last@ == "Result"@
            &&& f.output->angle_brackets
            &&& f.output->types@.len() >= 2
        },
        objection(f) is None ==> result_types(f.output) == Ok::<(Seq<char>, Seq<char>), Seq<char>>(
            (f.output->types@[0]@, f.output->types@[1]@),
        ),
{
}

/// The description of a tool is its doc comment on one line, without the white space
/// around each of its lines.
pub proof fn a_description_is_the_doc_comment(docs: Seq<Seq<char>>)
    ensures
        doc_text(docs) == trim(join(docs.map_values(|d: Seq<char>| trim(d)), " "@)),
{
}

} // verus!
