//! `semantic_search` and `rerank`: passages in the order of their relevance.
//!
//! Scores are not integers; whoever computes them gives the order of the
//! passages and the scores as text.
use vstd::prelude::*;
use vstd::string::*;
use crate::decimal::{dec, decimal};
use crate::json::{items_view, lemma_arr_view, JVal, Json};
use crate::pieces::{lemma_texts_push, take_chars, trimmed};
use crate::search::{texts, trim};
use crate::text::{cat2, cat3, cat4, copy};
use crate::tools::search::{strip_slashes, without_slashes};

verus! {

/// Where passages are embedded and ranked.
#[derive(Debug)]
pub struct RetrievalConfig {
    pub litellm_url: String,
    pub embed_model: String,
    pub rerank_model: String,
    /// The environment variable that holds the key.
    pub api_key_env: String,
}

impl Default for RetrievalConfig {
    fn default() -> (r: Self)
        ensures
            r.litellm_url@ == "http://100.80.135.46:4000/v1"@,
            r.embed_model@ == "nomic-embed-text"@,
            r.rerank_model@ == "bge-reranker"@,
            r.api_key_env@ == "LITELLM_API_KEY"@,
    {
        RetrievalConfig {
            litellm_url: copy("http://100.80.135.46:4000/v1"),
            embed_model: copy("nomic-embed-text"),
            rerank_model: copy("bge-reranker"),
            api_key_env: copy("LITELLM_API_KEY"),
        }
    }
}

/// Passages that a request may hold.
pub const MAX_DOCUMENTS: usize = 20;

/// A request whose arguments were found good.
#[derive(Debug)]
pub struct RankPlan {
    pub query: String,
    pub passages: Vec<String>,
    pub top_k: usize,
}

/// The content of a [`RankPlan`].
pub struct RankView {
    pub query: Seq<char>,
    pub passages: Seq<Seq<char>>,
    pub top_k: usize,
}

impl View for RankPlan {
    type V = RankView;

    open spec fn view(&self) -> RankView {
        RankView { query: self.query@, passages: texts(self.passages@), top_k: self.top_k }
    }
}

/// All items are strings.
pub open spec fn all_text(items: Seq<JVal>) -> bool {
    forall|i: int| 0 <= i < items.len() ==> (#[trigger] items[i]).as_text() is Some
}

/// The strings of a list of strings.
pub open spec fn strings_of(items: Seq<JVal>) -> Seq<Seq<char>> {
    Seq::new(items.len(), |i: int| items[i].as_text()->0)
}

/// How many passages are returned: from one to all of them.
pub open spec fn kept(asked: Option<u64>, default: usize, n: nat) -> int {
    let k = match asked {
        Some(k) => k as usize,
        None => default,
    };
    if k < 1 {
        1
    } else if k > n {
        n as int
    } else {
        k as int
    }
}

/// The plan of a request whose passages are in the field `key` and called `word`,
/// or what is wrong with it.
pub open spec fn rank_plan(args: JVal, key: Seq<char>, word: Seq<char>, default: usize) -> Result<
    RankView,
    Seq<char>,
> {
    match args.field("query"@).as_text() {
        None => Err("missing 'query' (string)"@),
        Some(raw) => if trim(raw).len() == 0 {
            Err("query must not be empty"@)
        } else {
            match args.field(key) {
                JVal::Arr(items) => if !all_text(items) {
                    Err("each "@ + word + " must be a string"@)
                } else if items.len() == 0 {
                    Err(key + " must not be empty"@)
                } else if items.len() > MAX_DOCUMENTS {
                    Err("at most 20 "@ + key + " allowed"@)
                } else {
                    Ok(
                        RankView {
                            query: trim(raw),
                            passages: strings_of(items),
                            top_k: kept(args.field("top_k"@).as_uint(), default, items.len()) as usize,
                        },
                    )
                },
                _ => Err("missing '"@ + key + "' (array of strings)"@),
            }
        },
    }
}

pub open spec fn rank_result(r: Result<RankPlan, String>) -> Result<RankView, Seq<char>> {
    match r {
        Ok(p) => Ok(p@),
        Err(e) => Err(e@),
    }
}

fn read_strings(items: &Vec<Json>) -> (r: Option<Vec<String>>)
    ensures
        match r {
            Some(v) => all_text(items_view(items@)) && texts(v@) == strings_of(items_view(items@)),
            None => !all_text(items_view(items@)),
        },
{
    let mut out: Vec<String> = Vec::new();
    let n: usize = items.len();
    let mut i: usize = 0;
    let ghost all = items_view(items@);
    while i < n
        invariant
            i <= n,
            n == items@.len(),
            all == items_view(items@),
            forall|j: int| 0 <= j < i ==> (#[trigger] all[j]).as_text() is Some,
            texts(out@) == strings_of(all).take(i as int),
        decreases n - i,
    {
        assert(all[i as int] == items@[i as int]@);
        match items[i].as_str() {
            Some(s) => {
                let t = copy(s);
                proof {
                    lemma_texts_push(out@, t);
                }
                out.push(t);
                assert(texts(out@) =~= strings_of(all).take(i as int + 1));
            },
            None => {
                return None;
            },
        }
        i += 1;
    }
    assert(texts(out@) =~= strings_of(all));
    Some(out)
}

fn plan_ranking(args: &Json, key: &str, word: &str, default: usize) -> (r: Result<RankPlan, String>)
    ensures
        rank_result(r) == rank_plan(args@, key@, word@, default),
{
    let query = match args.text_field("query") {
        Some(s) => trimmed(s),
        None => {
            return Err(copy("missing 'query' (string)"));
        },
    };
    if query.as_str().is_empty() {
        return Err(copy("query must not be empty"));
    }
    let items = match args.array_field(key) {
        Some(v) => v,
        None => {
            return Err(cat3("missing '", key, "' (array of strings)"));
        },
    };
    let passages = match read_strings(items) {
        Some(v) => v,
        None => {
            return Err(cat3("each ", word, " must be a string"));
        },
    };
    assert(texts(passages@).len() == passages@.len());
    if passages.len() == 0 {
        return Err(cat2(key, " must not be empty"));
    }
    if passages.len() > MAX_DOCUMENTS {
        return Err(cat3("at most 20 ", key, " allowed"));
    }
    let asked: usize = match args.uint_field("top_k") {
        Some(k) => {
            #[verifier::truncate]
            let m: usize = k as usize;
            m
        },
        None => default,
    };
    let top_k: usize = if asked < 1 {
        1
    } else if asked > passages.len() {
        passages.len()
    } else {
        asked
    };
    Ok(RankPlan { query, passages, top_k })
}

/// `semantic_search`: passages by the similarity of their embeddings.
pub struct SemanticSearch {
    cfg: RetrievalConfig,
}

/// `rerank`: passages by the score of a reranking model.
pub struct Rerank {
    cfg: RetrievalConfig,
}

/// The texts that are embedded: the query, then the passages.
pub open spec fn embed_inputs(p: RankView) -> Seq<Seq<char>> {
    seq!["search_query: "@ + p.query] + Seq::new(
        p.passages.len(),
        |i: int| "search_document: "@ + p.passages[i],
    )
}

/// A list of texts as a document.
pub open spec fn texts_json(v: Seq<Seq<char>>) -> JVal {
    JVal::Arr(Seq::new(v.len(), |i: int| JVal::Str(v[i])))
}

fn texts_to_json(v: &Vec<String>) -> (r: Json)
    ensures
        r@ == texts_json(texts(v@)),
{
    let mut out: Vec<Json> = Vec::new();
    let n: usize = v.len();
    let mut i: usize = 0;
    while i < n
        invariant
            i <= n,
            n == v@.len(),
            out@.len() == i,
            forall|k: int| 0 <= k < i ==> (#[trigger] out@[k])@ == JVal::Str(v@[k]@),
        decreases n - i,
    {
        out.push(Json::text(v[i].as_str()));
        i += 1;
    }
    proof {
        lemma_arr_view(out);
        let t = texts(v@);
        assert(items_view(out@) =~= Seq::new(t.len(), |i: int| JVal::Str(t[i])));
    }
    Json::Arr(out)
}

fn endpoint(base: &str, path: &str) -> (r: String)
    ensures
        r@ == without_slashes(base@) + path@,
{
    let b = strip_slashes(base);
    cat2(b.as_str(), path)
}

impl SemanticSearch {
    pub closed spec fn config(&self) -> RetrievalConfig {
        self.cfg
    }

    pub fn new(cfg: RetrievalConfig) -> (r: Self)
        ensures
            r.config() == cfg,
    {
        SemanticSearch { cfg }
    }

    /// The environment variable that holds the key.
    pub fn key_env(&self) -> (r: &str)
        ensures
            r@ == self.config().api_key_env@,
    {
        self.cfg.api_key_env.as_str()
    }

    /// Checks a request.
    pub fn call(&self, args: &Json) -> (r: Result<RankPlan, String>)
        ensures
            rank_result(r) == rank_plan(args@, "documents"@, "document"@, 3),
    {
        plan_ranking(args, "documents", "document", 3)
    }

    /// Where texts are embedded.
    pub fn url(&self) -> (r: String)
        ensures
            r@ == without_slashes(self.config().litellm_url@) + "/embeddings"@,
    {
        endpoint(self.cfg.litellm_url.as_str(), "/embeddings")
    }

    /// The request that embeds the query and the passages.
    pub fn request(&self, plan: &RankPlan) -> (r: Json)
        ensures
            r@ == JVal::object().with("model"@, JVal::Str(self.config().embed_model@)).with(
                "input"@,
                texts_json(embed_inputs(plan@)),
            ),
    {
        let mut inputs: Vec<String> = Vec::new();
        inputs.push(cat2("search_query: ", plan.query.as_str()));
        let n: usize = plan.passages.len();
        let mut i: usize = 0;
        let ghost all = embed_inputs(plan@);
        assert(texts(inputs@) =~= all.take(1));
        while i < n
            invariant
                i <= n,
                n == plan.passages@.len(),
                all == embed_inputs(plan@),
                texts(inputs@) == all.take(i as int + 1),
            decreases n - i,
        {
            let s = cat2("search_document: ", plan.passages[i].as_str());
            proof {
                assert(s@ == all[i as int + 1]);
                lemma_texts_push(inputs@, s);
            }
            inputs.push(s);
            assert(texts(inputs@) =~= all.take(i as int + 2));
            i += 1;
        }
        assert(texts(inputs@) =~= all);
        Json::object().with_text("model", self.cfg.embed_model.as_str()).with(
            "input",
            texts_to_json(&inputs),
        )
    }
}

impl Rerank {
    pub closed spec fn config(&self) -> RetrievalConfig {
        self.cfg
    }

    pub fn new(cfg: RetrievalConfig) -> (r: Self)
        ensures
            r.config() == cfg,
    {
        Rerank { cfg }
    }

    /// The environment variable that holds the key.
    pub fn key_env(&self) -> (r: &str)
        ensures
            r@ == self.config().api_key_env@,
    {
        self.cfg.api_key_env.as_str()
    }

    /// Checks a request.
    pub fn call(&self, args: &Json) -> (r: Result<RankPlan, String>)
        ensures
            rank_result(r) == rank_plan(args@, "passages"@, "passage"@, 5),
    {
        plan_ranking(args, "passages", "passage", 5)
    }

    /// Where passages are ranked.
    pub fn url(&self) -> (r: String)
        ensures
            r@ == without_slashes(self.config().litellm_url@) + "/rerank"@,
    {
        endpoint(self.cfg.litellm_url.as_str(), "/rerank")
    }

    /// The request that ranks the passages.
    pub fn request(&self, plan: &RankPlan) -> (r: Json)
        ensures
            r@ == JVal::object().with("model"@, JVal::Str(self.config().rerank_model@)).with(
                "query"@,
                JVal::Str(plan@.query),
            ).with("documents"@, texts_json(plan@.passages)),
    {
        Json::object().with_text("model", self.cfg.rerank_model.as_str()).with_text(
            "query",
            plan.query.as_str(),
        ).with("documents", texts_to_json(&plan.passages))
    }
}

/// The error of a service that refused a request.
pub fn status_error(service: &str, status: &str, body: &str) -> (r: String)
    ensures
        r@ == "LiteLLM "@ + service@ + " returned "@ + status@ + (" — "@ + (if body@.len() <= 300 {
            body@
        } else {
            body@.take(300)
        })),
{
    let head = take_chars(body, 300);
    let tail = cat2(" — ", head.as_str());
    let mut s = cat4("LiteLLM ", service, " returned ", status);
    s.append(tail.as_str());
    s
}

/// What is wrong with the number of embeddings, if anything: there has to be one
/// for the query and one for each passage.
pub fn check_embeddings(plan: &RankPlan, got: usize) -> (r: Result<(), String>)
    requires
        plan.passages@.len() <= MAX_DOCUMENTS,
    ensures
        crate::tools::computer::unit_result(r) == (if got == plan.passages@.len() + 1 {
            None
        } else {
            Some(
                "expected "@ + dec(plan.passages@.len() + 1) + " embeddings, got "@ + dec(
                    got as nat,
                ),
            )
        }),
{
    let want: usize = plan.passages.len() + 1;
    if got == want {
        Ok(())
    } else {
        let a = decimal(want as u64);
        let b = decimal(got as u64);
        Err(cat4("expected ", a.as_str(), " embeddings, got ", b.as_str()))
    }
}

/// A passage with its score.
#[derive(Debug)]
pub struct Scored {
    /// Which passage it is.
    pub index: usize,
    /// Its score as text.
    pub score: String,
}

/// The passage with an index, or a note that there is none.
pub open spec fn passage_at(passages: Seq<Seq<char>>, i: int) -> Seq<char> {
    if 0 <= i < passages.len() {
        passages[i]
    } else {
        "(index out of range)"@
    }
}

/// One entry of a ranking.
pub open spec fn ranked_entry(place: int, s: Scored, passages: Seq<Seq<char>>) -> Seq<char> {
    "\n"@ + dec((place + 1) as nat) + ". [score: "@ + s.score@ + ("] "@ + passage_at(
        passages,
        s.index as int,
    ) + "\n"@)
}

/// The first `k` entries of a ranking, after a heading.
pub open spec fn ranking(
    heading: Seq<char>,
    order: Seq<Scored>,
    passages: Seq<Seq<char>>,
    k: int,
) -> Seq<char>
    decreases k,
{
    if k <= 0 {
        heading
    } else {
        ranking(heading, order, passages, k - 1) + ranked_entry(k - 1, order[k - 1], passages)
    }
}

/// How many entries are shown.
pub open spec fn entries_shown(n: nat, top_k: usize) -> int {
    if n <= top_k {
        n as int
    } else {
        top_k as int
    }
}

fn render_ranking(heading: String, order: &Vec<Scored>, passages: &Vec<String>, top_k: usize) -> (r:
    String)
    ensures
        r@ == ranking(
            heading@,
            order@,
            texts(passages@),
            entries_shown(order@.len(), top_k),
        ),
{
    let n: usize = if order.len() <= top_k {
        order.len()
    } else {
        top_k
    };
    let ghost first = heading@;
    let mut out = heading;
    let mut i: usize = 0;
    while i < n
        invariant
            i <= n <= order@.len(),
            out@ == ranking(first, order@, texts(passages@), i as int),
        decreases n - i,
    {
        let s = &order[i];
        let place = decimal(i as u64 + 1);
        let text = if s.index < passages.len() {
            passages[s.index].as_str()
        } else {
            "(index out of range)"
        };
        proof {
            if s.index < passages@.len() {
                assert(texts(passages@)[s.index as int] == passages@[s.index as int]@);
            }
        }
        let tail = cat3("] ", text, "\n");
        let mut entry = cat4("\n", place.as_str(), ". [score: ", s.score.as_str());
        entry.append(tail.as_str());
        out.append(entry.as_str());
        i += 1;
    }
    out
}

impl SemanticSearch {
    /// The passages in the order of their similarity.
    pub fn render(&self, plan: &RankPlan, order: &Vec<Scored>) -> (r: String)
        ensures
            r@ == ranking(
                "Top "@ + dec(plan.top_k as nat) + " results (cosine similarity):\n"@,
                order@,
                plan@.passages,
                entries_shown(order@.len(), plan.top_k),
            ),
    {
        let k = decimal(plan.top_k as u64);
        let heading = cat3("Top ", k.as_str(), " results (cosine similarity):\n");
        render_ranking(heading, order, &plan.passages, plan.top_k)
    }
}

impl Rerank {
    /// The passages in the order of their scores.
    pub fn render(&self, plan: &RankPlan, order: &Vec<Scored>) -> (r: String)
        ensures
            r@ == (if order@.len() == 0 {
                "(no results returned by reranker)"@
            } else {
                ranking(
                    "Top "@ + dec(plan.top_k as nat) + " passages (relevance score):\n"@,
                    order@,
                    plan@.passages,
                    entries_shown(order@.len(), plan.top_k),
                )
            }),
    {
        if order.len() == 0 {
            return copy("(no results returned by reranker)");
        }
        let k = decimal(plan.top_k as u64);
        let heading = cat3("Top ", k.as_str(), " passages (relevance score):\n");
        render_ranking(heading, order, &plan.passages, plan.top_k)
    }
}

} // verus!
