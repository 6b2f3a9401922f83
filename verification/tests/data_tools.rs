use agnt::json::{parse, render, Json};
use agnt::tools::retrieval::{check_embeddings, Rerank, RetrievalConfig, Scored, SemanticSearch};
use agnt::tools::search::{
    render_results, search_url, trim_snippet, urlencoding, SearchConfig, SxResult, WebSearch,
};
use agnt::tools::vault::{
    fmt_mtime, is_hidden, is_note, lookup, newest_first, parse_frontmatter, rel, VaultFile, VaultFind,
    VaultRecent,
};
use agnt::tools::vision::{
    base64_encode, build_request_body, capture_screen, parse_answer, truncate_chars, LookAtScreen,
    VisionConfig,
};
use agnt::tools::shell::CmdOutput;

fn json(s: &str) -> Json {
    parse(s).unwrap()
}

fn default_cfg() -> RetrievalConfig {
    RetrievalConfig::default()
}

#[test]
fn semantic_search_schema_is_valid_json_object() {
    let t = SemanticSearch::new(default_cfg());
    let s = t.schema();
    assert_eq!(s.text_field("type"), Some("object"));
    let p = s.get("properties").unwrap();
    assert!(matches!(p.get("query"), Some(Json::Obj(_))));
    assert!(matches!(p.get("documents"), Some(Json::Obj(_))));
    let required = s.array_field("required").unwrap();
    assert_eq!(required[0].as_str(), Some("query"));
    assert_eq!(required[1].as_str(), Some("documents"));
}

#[test]
fn semantic_search_rejects_missing_query() {
    let t = SemanticSearch::new(default_cfg());
    let err = t.call(&json("{\"documents\": [\"a\"]}")).unwrap_err();
    assert!(err.contains("query"), "{err}");
}

#[test]
fn semantic_search_rejects_empty_query() {
    let t = SemanticSearch::new(default_cfg());
    let err = t
        .call(&json("{\"query\": \"  \", \"documents\": [\"a\"]}"))
        .unwrap_err();
    assert!(err.contains("empty"), "{err}");
}

#[test]
fn semantic_search_rejects_missing_documents() {
    let t = SemanticSearch::new(default_cfg());
    let err = t.call(&json("{\"query\": \"hello\"}")).unwrap_err();
    assert!(err.contains("documents"), "{err}");
}

#[test]
fn semantic_search_rejects_too_many_documents() {
    let t = SemanticSearch::new(default_cfg());
    let docs: Vec<Json> = (0..21).map(|i| Json::Str(format!("doc {i}"))).collect();
    let err = t
        .call(&Json::object().with_text("query", "hello").with("documents", Json::Arr(docs)))
        .unwrap_err();
    assert!(err.contains("20"), "{err}");
}

#[test]
fn semantic_search_name_and_description_are_set() {
    let t = SemanticSearch::new(default_cfg());
    assert_eq!(t.name(), "semantic_search");
    assert!(!t.description().is_empty());
}

#[test]
fn rerank_schema_is_valid_json_object() {
    let t = Rerank::new(default_cfg());
    let s = t.schema();
    assert_eq!(s.text_field("type"), Some("object"));
    let p = s.get("properties").unwrap();
    assert!(matches!(p.get("query"), Some(Json::Obj(_))));
    assert!(matches!(p.get("passages"), Some(Json::Obj(_))));
    let required = s.array_field("required").unwrap();
    assert_eq!(required[0].as_str(), Some("query"));
    assert_eq!(required[1].as_str(), Some("passages"));
}

#[test]
fn rerank_rejects_missing_query() {
    let t = Rerank::new(default_cfg());
    let err = t.call(&json("{\"passages\": [\"a\"]}")).unwrap_err();
    assert!(err.contains("query"), "{err}");
}

#[test]
fn rerank_rejects_empty_query() {
    let t = Rerank::new(default_cfg());
    let err = t
        .call(&json("{\"query\": \"\", \"passages\": [\"a\"]}"))
        .unwrap_err();
    assert!(err.contains("empty"), "{err}");
}

#[test]
fn rerank_rejects_missing_passages() {
    let t = Rerank::new(default_cfg());
    let err = t.call(&json("{\"query\": \"hello\"}")).unwrap_err();
    assert!(err.contains("passages"), "{err}");
}

#[test]
fn rerank_rejects_too_many_passages() {
    let t = Rerank::new(default_cfg());
    let passages: Vec<Json> = (0..21).map(|i| Json::Str(format!("p {i}"))).collect();
    let err = t
        .call(&Json::object().with_text("query", "hello").with("passages", Json::Arr(passages)))
        .unwrap_err();
    assert!(err.contains("20"), "{err}");
}

#[test]
fn rerank_name_and_description_are_set() {
    let t = Rerank::new(default_cfg());
    assert_eq!(t.name(), "rerank");
    assert!(!t.description().is_empty());
}

#[test]
fn config_defaults_are_sensible() {
    let cfg = RetrievalConfig::default();
    assert!(cfg.litellm_url.contains("4000"));
    assert_eq!(cfg.embed_model, "nomic-embed-text");
    assert_eq!(cfg.rerank_model, "bge-reranker");
}

#[test]
fn ranked_passages_are_rendered_in_order() {
    let t = SemanticSearch::new(default_cfg());
    let plan = t
        .call(&json("{\"query\": \"q\", \"documents\": [\"first\", \"second\"], \"top_k\": 2}"))
        .unwrap();
    assert_eq!(plan.passages, vec!["first".to_string(), "second".to_string()]);
    assert!(check_embeddings(&plan, 3).is_ok());
    assert!(check_embeddings(&plan, 2).is_err());
    let order = vec![
        Scored { index: 1, score: "0.9000".into() },
        Scored { index: 0, score: "0.1000".into() },
    ];
    let text = t.render(&plan, &order);
    let a = text.find("second").unwrap();
    let b = text.find("first").unwrap();
    assert!(a < b, "{text}");
}

#[test]
fn render_empty_returns_no_results_marker() {
    assert_eq!(render_results(&vec![], 5), "No results.");
}

#[test]
fn render_truncates_to_cap() {
    let mk = |n: usize| SxResult {
        title: format!("T{n}"),
        url: format!("https://example.com/{n}"),
        content: "snippet".into(),
    };
    let results: Vec<SxResult> = (0..10).map(mk).collect();
    let rendered = render_results(&results, 3);
    assert!(rendered.contains("1. T0"));
    assert!(rendered.contains("3. T2"));
    assert!(!rendered.contains("4. T3"));
}

#[test]
fn render_handles_long_snippet() {
    let r = SxResult {
        title: "Title".into(),
        url: "https://x".into(),
        content: "word ".repeat(100),
    };
    let out = render_results(&vec![r], 1);
    assert!(out.contains('…'));
}

#[test]
fn url_encoding_roundtrip() {
    assert_eq!(urlencoding("rust lang"), "rust+lang");
    assert_eq!(urlencoding("c++"), "c%2B%2B");
    assert_eq!(urlencoding("hello/world?"), "hello%2Fworld%3F");
}

#[test]
fn snippets_are_collapsed_and_cut() {
    assert_eq!(trim_snippet(" a \n b ", 10), "a b");
    assert_eq!(trim_snippet("abcdef", 3), "abc…");
}

#[test]
fn search_addresses_hold_the_query() {
    let url = search_url("http://x", "rust lang");
    assert!(url.starts_with("http://x"), "{url}");
    assert!(url.contains("rust+lang"), "{url}");
    let w = WebSearch::new(SearchConfig { searxng_url: "http://x".into() });
    assert_eq!(w.url_for("rust lang"), url);
    let (q, n) = w.call(&json("{\"query\": \"rust\"}")).unwrap();
    assert_eq!((q.as_str(), n), ("rust", 5));
    assert!(w.call(&json("{\"query\": \" \"}")).is_err());
    assert!(w.call(&json("{}")).is_err());
}

const ROOT: &str = "/vault";

fn file(name: &str, mtime_ns: i128, content: &str) -> VaultFile {
    VaultFile { path: format!("{ROOT}/{name}"), mtime_ns, content: Some(content.into()) }
}

fn vault_with_files() -> Vec<VaultFile> {
    vec![
        file(
            "note1.md",
            3_000_000_000,
            "---\ntitle: Alpha Note\ntype: note\nproject: SOLA\nstatus: active\n---\nBody.",
        ),
        file(
            "note2.md",
            5_000_000_000,
            "---\ntitle: Beta Meeting\ntype: meeting\nproject: PLYGLT\nstatus: done\ntags: meeting, standup\n---\nBody.",
        ),
        file("note3.md", 1_000_000_000, "No frontmatter here."),
    ]
}

#[test]
fn vault_recent_returns_files() {
    let tmp = vault_with_files();
    let tool = VaultRecent::new(ROOT.into());
    let out = tool.call(&json("{\"n\": 10}"), Some(&tmp)).unwrap();
    assert!(out.contains("note1.md") || out.contains("note2.md") || out.contains("note3.md"));
}

#[test]
fn vault_recent_defaults_to_10() {
    let tmp = vault_with_files();
    let tool = VaultRecent::new(ROOT.into());
    let out = tool.call(&json("{}"), Some(&tmp)).unwrap();
    assert!(!out.is_empty());
}

#[test]
fn vault_recent_missing_root_is_error() {
    let tool = VaultRecent::new("/nonexistent/vault".into());
    assert!(tool.call(&json("{}"), None).is_err());
}

#[test]
fn vault_find_by_project() {
    let tmp = vault_with_files();
    let tool = VaultFind::new(ROOT.into());
    let out = tool.call(&json("{\"project\": \"sola\"}"), Some(&tmp)).unwrap();
    assert!(out.contains("Alpha Note"), "{out}");
    assert!(!out.contains("PLYGLT"), "{out}");
}

#[test]
fn vault_find_by_type() {
    let tmp = vault_with_files();
    let tool = VaultFind::new(ROOT.into());
    let out = tool.call(&json("{\"type\": \"meeting\"}"), Some(&tmp)).unwrap();
    assert!(out.contains("Beta Meeting"), "{out}");
}

#[test]
fn vault_find_by_status_exact() {
    let tmp = vault_with_files();
    let tool = VaultFind::new(ROOT.into());
    let out = tool.call(&json("{\"status\": \"active\"}"), Some(&tmp)).unwrap();
    assert!(out.contains("Alpha Note"), "{out}");
    assert!(!out.contains("Beta Meeting"), "{out}");
}

#[test]
fn vault_find_no_filters_is_error() {
    let tmp = vault_with_files();
    let tool = VaultFind::new(ROOT.into());
    assert!(tool.call(&json("{}"), Some(&tmp)).is_err());
}

#[test]
fn vault_find_no_match_returns_message() {
    let tmp = vault_with_files();
    let tool = VaultFind::new(ROOT.into());
    let out = tool
        .call(&json("{\"project\": \"zzz-nonexistent\"}"), Some(&tmp))
        .unwrap();
    assert!(out.contains("no files matched"), "{out}");
}

#[test]
fn parse_frontmatter_missing_returns_empty() {
    let fm = parse_frontmatter(&Some("Just content, no frontmatter.".into()));
    assert!(fm.is_empty());
}

#[test]
fn fmt_mtime_epoch_is_valid() {
    let s = fmt_mtime(0);
    assert_eq!(s, "1970-01-01T00:00:00Z");
}

#[test]
fn moments_are_written_in_utc() {
    assert_eq!(fmt_mtime(951_827_696), "2000-02-29T12:34:56Z");
    assert_eq!(fmt_mtime(1_709_251_199), "2024-02-29T23:59:59Z");
    assert_eq!(fmt_mtime(4_107_542_400), "2100-03-01T00:00:00Z");
}

#[test]
fn newer_notes_come_first() {
    let files = vault_with_files();
    assert_eq!(newest_first(&files), vec![1, 0, 2]);
    let out = VaultRecent::new(ROOT.into()).call(&json("{\"n\": 2}"), Some(&files)).unwrap();
    assert!(out.find("note2.md").unwrap() < out.find("note1.md").unwrap(), "{out}");
    assert!(!out.contains("note3.md"), "{out}");
}

#[test]
fn front_matter_is_looked_up_by_key() {
    let fm = parse_frontmatter(&Some("---\ntitle: A: B\nstatus: done\n---\n".into()));
    assert_eq!(lookup(&fm, "title"), Some("A: B"));
    assert_eq!(lookup(&fm, "status"), Some("done"));
    assert_eq!(lookup(&fm, "type"), None);
    assert_eq!(rel(ROOT, "/vault/a/b.md"), "a/b.md");
    assert!(is_hidden(".git"));
    assert!(!is_hidden("notes"));
    assert!(is_note("a.md"));
    assert!(!is_note(".md"));
    assert!(!is_note("a.txt"));
}

#[test]
fn build_request_body_has_correct_openai_vision_shape() {
    let body = build_request_body("qwen2-vl-2b", "data:image/png;base64,AAAA", "what color");
    assert_eq!(body.text_field("model"), Some("qwen2-vl-2b"));
    let messages = body.array_field("messages").expect("messages array");
    assert_eq!(messages.len(), 1);
    assert_eq!(messages[0].text_field("role"), Some("user"));
    let content = messages[0].array_field("content").expect("content array");
    assert_eq!(content.len(), 2);
    assert_eq!(content[0].text_field("type"), Some("image_url"));
    assert_eq!(
        content[0].get("image_url").unwrap().text_field("url"),
        Some("data:image/png;base64,AAAA")
    );
    assert_eq!(content[1].text_field("type"), Some("text"));
    assert_eq!(content[1].text_field("text"), Some("what color"));
    // max_tokens must be set or vLLM defaults to 16 — voice replies need
    // at least a few sentences of headroom.
    assert!(body.uint_field("max_tokens").unwrap_or(0) >= 100);
}

#[test]
fn parse_answer_handles_string_content() {
    let body = json(
        "{\"choices\": [{\"message\": { \"role\": \"assistant\", \"content\": \"the image is red.\" }}]}",
    );
    let s = parse_answer(&body).expect("parse");
    assert_eq!(s, "the image is red.");
}

#[test]
fn parse_answer_handles_array_content() {
    // Some vLLM builds + Anthropic-shaped responses return content as
    // an array of typed parts.
    let body = json(
        "{\"choices\": [{\"message\": {\"role\": \"assistant\", \"content\": [\
         { \"type\": \"text\", \"text\": \"the image is \" },\
         { \"type\": \"text\", \"text\": \"solid red.\" }]}}]}",
    );
    let s = parse_answer(&body).expect("parse");
    assert!(s.contains("solid red"));
    assert!(s.contains("the image is"));
}

#[test]
fn parse_answer_errors_on_empty_choices() {
    let body = json("{ \"choices\": [] }");
    let err = parse_answer(&body).unwrap_err();
    assert!(err.contains("empty"));
}

#[test]
fn parse_answer_errors_on_missing_content() {
    let body = json("{ \"choices\": [{ \"message\": {} }] }");
    let err = parse_answer(&body).unwrap_err();
    assert!(err.contains("content"));
}

#[test]
fn truncate_chars_caps_long_input() {
    let long: String = "a".repeat(1000);
    let out = truncate_chars(&long, 500);
    assert_eq!(out.chars().count(), 500);
    assert!(out.ends_with('…'));
}

#[test]
fn truncate_chars_passes_through_short_input() {
    let s = "short answer";
    assert_eq!(truncate_chars(s, 500), "short answer");
}

#[test]
fn base64_round_trip_examples() {
    // RFC 4648 test vectors.
    assert_eq!(base64_encode(b""), "");
    assert_eq!(base64_encode(b"f"), "Zg==");
    assert_eq!(base64_encode(b"fo"), "Zm8=");
    assert_eq!(base64_encode(b"foo"), "Zm9v");
    assert_eq!(base64_encode(b"foob"), "Zm9vYg==");
    assert_eq!(base64_encode(b"fooba"), "Zm9vYmE=");
    assert_eq!(base64_encode(b"foobar"), "Zm9vYmFy");
}

#[test]
fn base64_encodes_png_signature_correctly() {
    // First 8 bytes of every PNG file.
    let png_sig = [0x89, b'P', b'N', b'G', 0x0d, 0x0a, 0x1a, 0x0a];
    let encoded = base64_encode(&png_sig);
    assert_eq!(encoded, "iVBORw0KGgo=");
}

#[test]
fn vision_config_default_targets_lnx_rig() {
    let cfg = VisionConfig::default();
    assert!(cfg.url.contains("lnx-rig"), "url={}", cfg.url);
    assert!(cfg.url.contains(":8002"), "url={}", cfg.url);
    assert_eq!(cfg.model, "qwen2-vl-2b");
}

fn chunk(tag: &[u8; 4], data: &[u8]) -> Vec<u8> {
    let mut out = Vec::new();
    out.extend_from_slice(&(data.len() as u32).to_be_bytes());
    out.extend_from_slice(tag);
    out.extend_from_slice(data);
    let mut crc = 0xffff_ffff_u32;
    for b in tag.iter().chain(data.iter()) {
        crc ^= *b as u32;
        for _ in 0..8 {
            crc = if crc & 1 == 1 { 0xedb8_8320 ^ (crc >> 1) } else { crc >> 1 };
        }
    }
    out.extend_from_slice(&(crc ^ 0xffff_ffff).to_be_bytes());
    out
}

fn deflate_uncompressed(input: &[u8]) -> Vec<u8> {
    let mut out = vec![0x78, 0x01];
    let mut i = 0;
    while i < input.len() {
        let n = (input.len() - i).min(0xffff);
        out.push(if i + n == input.len() { 1 } else { 0 });
        out.extend_from_slice(&(n as u16).to_le_bytes());
        out.extend_from_slice(&(!(n as u16)).to_le_bytes());
        out.extend_from_slice(&input[i..i + n]);
        i += n;
    }
    let (mut a, mut b) = (1u32, 0u32);
    for byte in input {
        a = (a + *byte as u32) % 65521;
        b = (b + a) % 65521;
    }
    out.extend_from_slice(&((b << 16) | a).to_be_bytes());
    out
}

fn make_solid_red_png(size: u32) -> Vec<u8> {
    let mut ihdr = Vec::new();
    ihdr.extend_from_slice(&size.to_be_bytes());
    ihdr.extend_from_slice(&size.to_be_bytes());
    ihdr.extend_from_slice(&[8, 2, 0, 0, 0]);
    let q = size / 4;
    let mut raw = Vec::new();
    for y in 0..size {
        raw.push(0u8);
        for x in 0..size {
            let inside = x >= q && x < size - q && y >= q && y < size - q;
            raw.extend_from_slice(if inside { &[0xff, 0, 0] } else { &[0, 0, 0] });
        }
    }
    let mut png = vec![0x89, b'P', b'N', b'G', 0x0d, 0x0a, 0x1a, 0x0a];
    png.extend_from_slice(&chunk(b"IHDR", &ihdr));
    png.extend_from_slice(&chunk(b"IDAT", &deflate_uncompressed(&raw)));
    png.extend_from_slice(&chunk(b"IEND", b""));
    png
}

#[test]
fn synthetic_red_png_has_correct_signature() {
    let png = make_solid_red_png(64);
    assert_eq!(&png[..8], &[0x89, b'P', b'N', b'G', 0x0d, 0x0a, 0x1a, 0x0a]);
    // IHDR starts at byte 8, length is 4 bytes, tag is 4 bytes,
    // then width (4) + height (4).
    assert_eq!(&png[12..16], b"IHDR");
    assert_eq!(u32::from_be_bytes([png[16], png[17], png[18], png[19]]), 64);
    assert_eq!(u32::from_be_bytes([png[20], png[21], png[22], png[23]]), 64);
    // The picture goes into the request as it is.
    let look = LookAtScreen::new(VisionConfig::default());
    let body = render(&look.request(&png, &json("{}")));
    assert!(body.contains(&format!("data:image/png;base64,{}", base64_encode(&png))));
}

#[test]
fn answers_are_capped() {
    let look = LookAtScreen::new(VisionConfig::default());
    assert!(!look.question(&json("{}")).is_empty());
    assert_eq!(look.question(&json("{\"question\": \"what is it?\"}")), "what is it?");
    let long = Json::object().with(
        "choices",
        Json::Arr(vec![Json::object()
            .with("message", Json::object().with_text("content", &"a".repeat(1000)))]),
    );
    assert_eq!(look.answer(&long).unwrap().chars().count(), 500);
}

#[test]
fn a_second_program_may_take_the_picture() {
    let ran = |status_ok: bool| -> Result<CmdOutput, String> {
        Ok(CmdOutput { stdout: String::new(), stderr: String::new(), status_ok })
    };
    let broken: Result<CmdOutput, String> = Err("not installed".into());
    assert!(matches!(capture_screen(&ran(true), true, None, false), Some(Ok(()))));
    assert!(capture_screen(&ran(false), false, None, false).is_none());
    assert!(matches!(capture_screen(&ran(false), false, Some(&ran(true)), true), Some(Ok(()))));
    assert!(matches!(capture_screen(&ran(false), false, Some(&ran(true)), false), Some(Err(_))));
    assert_eq!(capture_screen(&broken, false, None, false), Some(Err("not installed".into())));
}
