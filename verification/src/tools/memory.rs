//! `memctl_recall` and `memctl_ingest`: the user's persistent memory.
use vstd::prelude::*;
use vstd::string::*;
use crate::decimal::{dec, decimal};
use crate::json::{JVal, Json};
use crate::pieces::trimmed;
use crate::search::{texts, trim};
use crate::text::{cat2, cat3, cat5, copy, same};
use crate::tools::shell::CmdOutput;

verus! {

/// The kinds of memories.
pub open spec fn allowed_kinds() -> Seq<Seq<char>> {
    seq!["decision"@, "fact"@, "error"@, "correction"@, "pattern"@, "insight"@]
}

/// The scopes of memories.
pub open spec fn allowed_scopes() -> Seq<Seq<char>> {
    seq!["project"@, "global"@]
}

/// `memctl_recall`: searches the memory.
pub struct MemctlRecall {
    bin: String,
}

/// `memctl_ingest`: adds to the memory.
pub struct MemctlIngest {
    bin: String,
}

/// What is wrong with a kind, if anything.
pub open spec fn kind_error(kind: Seq<char>) -> Option<Seq<char>> {
    if allowed_kinds().contains(kind) {
        None
    } else {
        Some(
            "kind must be one of [\"decision\", \"fact\", \"error\", \"correction\", \"pattern\", \"insight\"], got '"@
                + kind + "'"@,
        )
    }
}

/// What is wrong with a scope, if anything.
pub open spec fn scope_error(scope: Seq<char>) -> Option<Seq<char>> {
    if allowed_scopes().contains(scope) {
        None
    } else {
        Some("scope must be one of [\"project\", \"global\"], got '"@ + scope + "'"@)
    }
}

/// Checks the kind of a memory.
pub fn validate_kind(kind: &str) -> (r: Result<(), String>)
    ensures
        crate::tools::computer::unit_result(r) == kind_error(kind@),
{
    proof {
        let k = allowed_kinds();
        assert(k[0] == "decision"@ && k[1] == "fact"@ && k[2] == "error"@ && k[3]
            == "correction"@ && k[4] == "pattern"@ && k[5] == "insight"@);
    }
    if same(kind, "decision") || same(kind, "fact") || same(kind, "error") || same(
        kind,
        "correction",
    ) || same(kind, "pattern") || same(kind, "insight") {
        Ok(())
    } else {
        Err(
            cat3(
                "kind must be one of [\"decision\", \"fact\", \"error\", \"correction\", \"pattern\", \"insight\"], got '",
                kind,
                "'",
            ),
        )
    }
}

/// Checks the scope of a memory.
pub fn validate_scope(scope: &str) -> (r: Result<(), String>)
    ensures
        crate::tools::computer::unit_result(r) == scope_error(scope@),
{
    proof {
        let k = allowed_scopes();
        assert(k[0] == "project"@ && k[1] == "global"@);
    }
    if same(scope, "project") || same(scope, "global") {
        Ok(())
    } else {
        Err(cat3("scope must be one of [\"project\", \"global\"], got '", scope, "'"))
    }
}

/// A number of results: five by default, from one to twenty.
pub open spec fn recall_limit(asked: Option<u64>) -> u64 {
    let n = match asked {
        Some(n) => n,
        None => 5,
    };
    if n < 1 {
        1
    } else if n > 20 {
        20
    } else {
        n
    }
}

/// The arguments of the search, or what is wrong with the request.
pub open spec fn recall_plan(args: JVal) -> Result<Seq<Seq<char>>, Seq<char>> {
    match args.field("query"@).as_text() {
        None => Err("missing 'query' (string)"@),
        Some(raw) => if trim(raw).len() == 0 {
            Err("query must not be empty"@)
        } else {
            Ok(
                seq![
                    "recall"@,
                    "--limit"@,
                    dec(recall_limit(args.field("limit"@).as_uint()) as nat),
                    trim(raw),
                ],
            )
        },
    }
}

/// The texts of arguments, or the error.
pub open spec fn argv_view(r: Result<Vec<String>, String>) -> Result<Seq<Seq<char>>, Seq<char>> {
    match r {
        Ok(v) => Ok(texts(v@)),
        Err(e) => Err(e@),
    }
}

/// What a failed command said: its error output, or its output where there is
/// none.
pub open spec fn complaint(out: CmdOutput) -> Seq<char> {
    if trim(out.stderr@).len() == 0 {
        trim(out.stdout@)
    } else {
        trim(out.stderr@)
    }
}

fn complaint_of(out: &CmdOutput) -> (r: String)
    ensures
        r@ == complaint(*out),
{
    let e = trimmed(out.stderr.as_str());
    if e.as_str().is_empty() {
        trimmed(out.stdout.as_str())
    } else {
        e
    }
}

impl MemctlRecall {
    pub closed spec fn program(&self) -> Seq<char> {
        self.bin@
    }

    pub fn new(bin: String) -> (r: Self)
        ensures
            r.program() == bin@,
    {
        MemctlRecall { bin }
    }

    /// The program to run.
    pub fn bin(&self) -> (r: &str)
        ensures
            r@ == self.program(),
    {
        self.bin.as_str()
    }

    /// Checks a request and gives the arguments of the search.
    pub fn call(&self, args: &Json) -> (r: Result<Vec<String>, String>)
        ensures
            argv_view(r) == recall_plan(args@),
    {
        let query = match args.text_field("query") {
            Some(s) => trimmed(s),
            None => {
                return Err(copy("missing 'query' (string)"));
            },
        };
        if query.as_str().is_empty() {
            return Err(copy("query must not be empty"));
        }
        let asked: u64 = match args.uint_field("limit") {
            Some(n) => n,
            None => 5,
        };
        let limit: u64 = if asked < 1 {
            1
        } else if asked > 20 {
            20
        } else {
            asked
        };
        let mut v: Vec<String> = Vec::new();
        v.push(copy("recall"));
        v.push(copy("--limit"));
        v.push(decimal(limit));
        v.push(query);
        assert(texts(v@) =~= seq!["recall"@, "--limit"@, dec(limit as nat), query@]);
        Ok(v)
    }

    /// The result of the search.
    pub fn finish(&self, out: &CmdOutput) -> (r: Result<String, String>)
        ensures
            match r {
                Ok(s) => out.status_ok && s@ == (if trim(out.stdout@).len() == 0 {
                    "(no memories matched)"@
                } else {
                    trim(out.stdout@)
                }),
                Err(e) => !out.status_ok && e@ == "memctl recall failed: "@ + complaint(*out),
            },
    {
        if !out.status_ok {
            let c = complaint_of(out);
            return Err(cat2("memctl recall failed: ", c.as_str()));
        }
        let s = trimmed(out.stdout.as_str());
        if s.as_str().is_empty() {
            Ok(copy("(no memories matched)"))
        } else {
            Ok(s)
        }
    }
}

/// A memory that is to be added.
#[derive(Debug)]
pub struct Memory {
    pub content: String,
    pub kind: String,
    pub scope: String,
}

/// The memory that a request gives: content, kind and scope, or what is wrong
/// with it.
pub open spec fn ingest_plan(args: JVal) -> Result<(Seq<char>, Seq<char>, Seq<char>), Seq<char>> {
    match args.field("content"@).as_text() {
        None => Err("missing 'content' (string)"@),
        Some(content) => if trim(content).len() == 0 {
            Err("content must not be empty"@)
        } else {
            match (args.field("kind"@).as_text(), args.field("scope"@).as_text()) {
                (None, _) => Err("missing 'kind' (string)"@),
                (Some(_), None) => Err("missing 'scope' (string)"@),
                (Some(kind), Some(scope)) => match (kind_error(kind), scope_error(scope)) {
                    (Some(e), _) => Err(e),
                    (None, Some(e)) => Err(e),
                    (None, None) => Ok((content, kind, scope)),
                },
            }
        },
    }
}

impl MemctlIngest {
    pub closed spec fn program(&self) -> Seq<char> {
        self.bin@
    }

    pub fn new(bin: String) -> (r: Self)
        ensures
            r.program() == bin@,
    {
        MemctlIngest { bin }
    }

    /// The program to run.
    pub fn bin(&self) -> (r: &str)
        ensures
            r@ == self.program(),
    {
        self.bin.as_str()
    }

    /// Checks a request.
    pub fn call(&self, args: &Json) -> (r: Result<Memory, String>)
        ensures
            match r {
                Ok(m) => ingest_plan(args@) is Ok && ingest_plan(args@)->Ok_0 == (
                    m.content@,
                    m.kind@,
                    m.scope@,
                ),
                Err(e) => ingest_plan(args@) is Err && ingest_plan(args@)->Err_0 == e@,
            },
    {
        let content = match args.text_field("content") {
            Some(s) => copy(s),
            None => {
                return Err(copy("missing 'content' (string)"));
            },
        };
        let t = trimmed(content.as_str());
        if t.as_str().is_empty() {
            return Err(copy("content must not be empty"));
        }
        let kind = match args.text_field("kind") {
            Some(s) => copy(s),
            None => {
                return Err(copy("missing 'kind' (string)"));
            },
        };
        let scope = match args.text_field("scope") {
            Some(s) => copy(s),
            None => {
                return Err(copy("missing 'scope' (string)"));
            },
        };
        if let Err(e) = validate_kind(kind.as_str()) {
            return Err(e);
        }
        if let Err(e) = validate_scope(scope.as_str()) {
            return Err(e);
        }
        Ok(Memory { content, kind, scope })
    }

    /// The result of adding a memory.
    pub fn finish(&self, m: &Memory, out: &CmdOutput) -> (r: Result<String, String>)
        ensures
            match r {
                Ok(s) => out.status_ok && s@ == "ingested ("@ + m.kind@ + "/"@ + m.scope@ + "): "@
                    + trim(out.stdout@),
                Err(e) => !out.status_ok && e@ == "memctl ingest failed: "@ + complaint(*out),
            },
    {
        if !out.status_ok {
            let c = complaint_of(out);
            return Err(cat2("memctl ingest failed: ", c.as_str()));
        }
        let said = trimmed(out.stdout.as_str());
        let mut s = cat5("ingested (", m.kind.as_str(), "/", m.scope.as_str(), "): ");
        s.append(said.as_str());
        Ok(s)
    }
}

impl Memory {
    /// The arguments of the program that adds the memory.
    pub fn argv(&self) -> (r: Vec<String>)
        ensures
            texts(r@) == seq!["ingest"@, "-t"@, self.kind@, "-s"@, self.scope@, self.content@],
    {
        let mut v: Vec<String> = Vec::new();
        v.push(copy("ingest"));
        v.push(copy("-t"));
        v.push(copy(self.kind.as_str()));
        v.push(copy("-s"));
        v.push(copy(self.scope.as_str()));
        v.push(copy(self.content.as_str()));
        assert(texts(v@) =~= seq!["ingest"@, "-t"@, self.kind@, "-s"@, self.scope@, self.content@]);
        v
    }
}

} // verus!
