//! Tools that act on the desktop: clicking, typing, key presses, scrolling and
//! window focus.
//!
//! Every action needs approval before it is carried out. In `confirm` mode a
//! user has to approve it. In `smart` mode listed keys, and typing into listed
//! applications, need no approval. In `off` mode nothing does.
use vstd::prelude::*;
use vstd::string::*;
use crate::decimal::{dec, decimal, parse_int, read_int};
use crate::json::{record_text, render_record, JVal, Json};
use crate::message::opt_text;
use crate::paths::opt_str;
use crate::pieces::{lemma_texts_push, listed, lower_ascii_of, split_lines, trimmed};
use crate::search::{
    contains, has, lines, lower_ascii_text, starts_with, strip_prefix, texts, trim, begins,
};
use crate::text::{cat2, cat3, cat4, cat5, chars_of, copy, same, size, byte_len};
use crate::tools::shell::{CmdOutput, DEFAULT_TIMEOUT_MS};
use crate::wire::{ConfirmReply, ConfirmRequest, RequestId, CONFIRM_REPLY, CONFIRM_REQUEST};

verus! {

/// Seconds within which an action has to be approved.
pub const CONFIRM_TIMEOUT_SECS: u64 = 30;

/// Characters that may be typed at once.
pub const TYPE_TEXT_MAX: usize = 4096;

/// The subject on which approval is asked for.
pub fn confirm_request_subject() -> (r: &'static str)
    ensures
        r@ == "agnt.confirm.request"@,
{
    CONFIRM_REQUEST
}

/// The subject on which approval is given or denied.
pub fn confirm_reply_subject() -> (r: &'static str)
    ensures
        r@ == "agnt.confirm.reply"@,
{
    CONFIRM_REPLY
}

/// When an action needs approval.
#[derive(Clone, Copy, Debug, PartialEq, Eq, Structural)]
pub enum SafetyMode {
    /// Never.
    Off,
    /// Always.
    Confirm,
    /// Unless it is listed as harmless.
    Smart,
}

impl Default for SafetyMode {
    fn default() -> (r: Self)
        ensures
            r == SafetyMode::Confirm,
    {
        SafetyMode::Confirm
    }
}

/// The mode that a text names, whatever its case and the white space around it.
pub open spec fn mode_of(s: Seq<char>) -> Option<SafetyMode> {
    let t = lower_ascii_text(trim(s));
    if t == "off"@ {
        Some(SafetyMode::Off)
    } else if t == "confirm"@ {
        Some(SafetyMode::Confirm)
    } else if t == "smart"@ {
        Some(SafetyMode::Smart)
    } else {
        None
    }
}

impl SafetyMode {
    /// Reads a mode.
    pub fn parse(s: &str) -> (r: Result<SafetyMode, String>)
        ensures
            match r {
                Ok(m) => mode_of(s@) == Some(m),
                Err(e) => mode_of(s@) is None && e@ == "unknown computer_use_safety mode '"@
                    + lower_ascii_text(trim(s@)) + "' (expected off/confirm/smart)"@,
            },
    {
        let t = trimmed(s);
        let l = lower_ascii_of(t.as_str());
        if same(l.as_str(), "off") {
            Ok(SafetyMode::Off)
        } else if same(l.as_str(), "confirm") {
            Ok(SafetyMode::Confirm)
        } else if same(l.as_str(), "smart") {
            Ok(SafetyMode::Smart)
        } else {
            Err(
                cat3(
                    "unknown computer_use_safety mode '",
                    l.as_str(),
                    "' (expected off/confirm/smart)",
                ),
            )
        }
    }
}

/// When actions need approval, and which do not in smart mode.
#[derive(Debug)]
pub struct SafetyPolicy {
    pub mode: SafetyMode,
    /// Key combinations that need no approval.
    pub safe_keys: Vec<String>,
    /// Window classes into which one may type without approval, whatever their
    /// case.
    pub safe_focus_apps: Vec<String>,
}

fn strings(items: &[&str]) -> (r: Vec<String>)
    ensures
        texts(r@) == Seq::new(items@.len(), |i: int| items@[i]@),
{
    let mut out: Vec<String> = Vec::new();
    let n: usize = items.len();
    let mut i: usize = 0;
    let ghost all = Seq::new(items@.len(), |i: int| items@[i]@);
    while i < n
        invariant
            i <= n,
            n == items@.len(),
            all == Seq::new(items@.len(), |i: int| items@[i]@),
            texts(out@) == all.take(i as int),
        decreases n - i,
    {
        let s = copy(items[i]);
        proof {
            lemma_texts_push(out@, s);
        }
        out.push(s);
        assert(texts(out@) =~= all.take(i as int + 1));
        i += 1;
    }
    assert(texts(out@) =~= all);
    out
}

/// The keys that need no approval by default: those that only navigate.
pub open spec fn navigation_keys() -> Seq<Seq<char>> {
    seq![
        "Escape"@,
        "Return"@,
        "Tab"@,
        "alt+Tab"@,
        "super+a"@,
        "super+s"@,
        "Page_Down"@,
        "Page_Up"@,
        "Home"@,
        "End"@,
    ]
}

/// The window classes into which one may type without approval by default.
pub open spec fn typing_apps() -> Seq<Seq<char>> {
    seq!["kitty"@, "Alacritty"@, "VSCode"@, "Code"@, "obsidian"@, "Obsidian"@]
}

/// The keys that need no approval by default.
pub fn default_safe_keys() -> (r: Vec<String>)
    ensures
        texts(r@) == navigation_keys(),
{
    let a: [&str; 10] = [
        "Escape",
        "Return",
        "Tab",
        "alt+Tab",
        "super+a",
        "super+s",
        "Page_Down",
        "Page_Up",
        "Home",
        "End",
    ];
    let r = strings(&a);
    assert(texts(r@) =~= navigation_keys());
    r
}

/// The window classes into which one may type without approval by default.
pub fn default_safe_focus_apps() -> (r: Vec<String>)
    ensures
        texts(r@) == typing_apps(),
{
    let a: [&str; 6] = ["kitty", "Alacritty", "VSCode", "Code", "obsidian", "Obsidian"];
    let r = strings(&a);
    assert(texts(r@) =~= typing_apps());
    r
}

impl Default for SafetyPolicy {
    fn default() -> (r: Self)
        ensures
            r.mode == SafetyMode::Confirm,
            texts(r.safe_keys@) == navigation_keys(),
            texts(r.safe_focus_apps@) == typing_apps(),
    {
        SafetyPolicy {
            mode: SafetyMode::Confirm,
            safe_keys: default_safe_keys(),
            safe_focus_apps: default_safe_focus_apps(),
        }
    }
}

/// How approval was decided.
#[derive(Debug, PartialEq, Eq)]
pub enum GateOutcome {
    /// The action may be carried out.
    Allowed,
    /// A user denied it.
    Denied,
    /// Nobody answered in time.
    Timeout,
    /// Approval could not be asked for.
    PublishFailed(String),
}

/// What kind of action is meant.
#[derive(Clone, Copy, Debug, PartialEq, Eq, Structural)]
pub enum ActionKind {
    Click,
    Type,
    Key,
    Scroll,
    FocusWindow,
}

impl ActionKind {
    /// The action goes to the keyboard.
    pub open spec fn keyboard(self) -> bool {
        self == ActionKind::Type || self == ActionKind::Key
    }

    pub fn is_keyboard_like(self) -> (r: bool)
        ensures
            r == self.keyboard(),
    {
        self == ActionKind::Type || self == ActionKind::Key
    }
}

/// Whether an action needs approval.
#[derive(Debug, PartialEq, Eq)]
pub enum SmartDecision {
    /// It does not, for this reason.
    Bypass(&'static str),
    /// It does.
    MustConfirm,
}

/// A window class is listed, whatever its case.
pub open spec fn class_listed(apps: Seq<Seq<char>>, class: Seq<char>) -> bool {
    exists|i: int|
        0 <= i < apps.len() && lower_ascii_text(#[trigger] apps[i]) == lower_ascii_text(trim(class))
}

/// Why an action needs no approval, if it needs none.
pub open spec fn bypass(
    mode: SafetyMode,
    keys: Seq<Seq<char>>,
    apps: Seq<Seq<char>>,
    action: ActionKind,
    combo: Option<Seq<char>>,
    class: Option<Seq<char>>,
) -> Option<Seq<char>> {
    match mode {
        SafetyMode::Off => Some("safety mode = off"@),
        SafetyMode::Confirm => None,
        SafetyMode::Smart => if action == ActionKind::Key && combo is Some && keys.contains(
            combo->0,
        ) {
            Some("key in safe-key allowlist"@)
        } else if action.keyboard() && class is Some && class_listed(apps, class->0) {
            Some("focused app in safe list"@)
        } else {
            None
        },
    }
}

fn app_listed(apps: &Vec<String>, class: &str) -> (r: bool)
    ensures
        r == class_listed(texts(apps@), class@),
{
    let t = trimmed(class);
    let wanted = lower_ascii_of(t.as_str());
    let n: usize = apps.len();
    let mut i: usize = 0;
    let ghost all = texts(apps@);
    while i < n
        invariant
            i <= n,
            n == apps@.len(),
            all == texts(apps@),
            wanted@ == lower_ascii_text(trim(class@)),
            forall|j: int| 0 <= j < i ==> lower_ascii_text(#[trigger] all[j]) != wanted@,
        decreases n - i,
    {
        let have = lower_ascii_of(apps[i].as_str());
        assert(all[i as int] == apps@[i as int]@);
        if same(have.as_str(), wanted.as_str()) {
            return true;
        }
        i += 1;
    }
    false
}

/// Decides whether an action needs approval.
pub fn evaluate_smart(
    policy: &SafetyPolicy,
    action: ActionKind,
    combo: Option<&str>,
    focused_class: Option<&str>,
) -> (r: SmartDecision)
    ensures
        ({
            let b = bypass(
                policy.mode,
                texts(policy.safe_keys@),
                texts(policy.safe_focus_apps@),
                action,
                opt_str(combo),
                opt_str(focused_class),
            );
            match r {
                SmartDecision::Bypass(why) => b == Some(why@),
                SmartDecision::MustConfirm => b is None,
            }
        }),
{
    match policy.mode {
        SafetyMode::Off => SmartDecision::Bypass("safety mode = off"),
        SafetyMode::Confirm => SmartDecision::MustConfirm,
        SafetyMode::Smart => {
            if action == ActionKind::Key {
                if let Some(c) = combo {
                    if listed(&policy.safe_keys, c) {
                        return SmartDecision::Bypass("key in safe-key allowlist");
                    }
                }
            }
            if action.is_keyboard_like() {
                if let Some(class) = focused_class {
                    if app_listed(&policy.safe_focus_apps, class) {
                        return SmartDecision::Bypass("focused app in safe list");
                    }
                }
            }
            SmartDecision::MustConfirm
        },
    }
}

/// Unless approval is off, clicking, scrolling and focusing a window always
/// need approval.
pub proof fn pointer_actions_always_need_approval(
    mode: SafetyMode,
    keys: Seq<Seq<char>>,
    apps: Seq<Seq<char>>,
    action: ActionKind,
    combo: Option<Seq<char>>,
    class: Option<Seq<char>>,
)
    requires
        mode != SafetyMode::Off,
        action == ActionKind::Click || action == ActionKind::Scroll || action
            == ActionKind::FocusWindow,
    ensures
        bypass(mode, keys, apps, action, combo, class) is None,
{
}

/// In confirm mode everything needs approval, in off mode nothing does.
pub proof fn confirm_and_off_modes_ignore_the_lists(
    keys: Seq<Seq<char>>,
    apps: Seq<Seq<char>>,
    action: ActionKind,
    combo: Option<Seq<char>>,
    class: Option<Seq<char>>,
)
    ensures
        bypass(SafetyMode::Confirm, keys, apps, action, combo, class) is None,
        bypass(SafetyMode::Off, keys, apps, action, combo, class) is Some,
{
}

/// When a request for approval lapses, in nanoseconds since 1970.
pub open spec fn expiry(now_ns: u64) -> int {
    if now_ns + 30000000000 > u64::MAX {
        u64::MAX as int
    } else {
        now_ns + 30000000000
    }
}

/// A request for approval of an action.
pub fn confirm_request(
    request_id: RequestId,
    tool: &str,
    args: Json,
    preview: String,
    now_ns: u64,
) -> (r: ConfirmRequest)
    ensures
        r.request_id == request_id,
        r.tool@ == tool@,
        r.args == args,
        r.preview == preview,
        r.expires_at_ns == expiry(now_ns),
{
    ConfirmRequest {
        request_id,
        tool: copy(tool),
        args,
        preview,
        expires_at_ns: now_ns.saturating_add(CONFIRM_TIMEOUT_SECS * 1000000000),
    }
}

/// A reply is meant for a request: it names it, or whichever is the latest.
pub open spec fn meant_for(reply_id: Seq<char>, id: RequestId) -> bool {
    reply_id == id.text() || reply_id == "*"@ || reply_id.len() == 0
}

/// What a reply decides for a request, if anything.
pub open spec fn verdict(id: RequestId, reply_id: Seq<char>, approved: bool) -> Option<bool> {
    if meant_for(reply_id, id) {
        Some(approved)
    } else {
        None
    }
}

/// What a reply decides for a request; nothing when it is for another one.
pub fn judge_reply(request_id: &RequestId, reply: &ConfirmReply) -> (r: Option<GateOutcome>)
    ensures
        match r {
            Some(GateOutcome::Allowed) => verdict(*request_id, reply.request_id@, reply.approved)
                == Some(true),
            Some(GateOutcome::Denied) => verdict(*request_id, reply.request_id@, reply.approved)
                == Some(false),
            Some(_) => false,
            None => verdict(*request_id, reply.request_id@, reply.approved) is None,
        },
{
    let id = request_id.to_text();
    let given = reply.request_id.as_str();
    let hit: bool = same(given, id.as_str()) || same(given, "*") || given.is_empty();
    if !hit {
        None
    } else if reply.approved {
        Some(GateOutcome::Allowed)
    } else {
        Some(GateOutcome::Denied)
    }
}

/// What a sequence of replies decides: the first that is meant for the request.
pub open spec fn first_verdict(id: RequestId, replies: Seq<(Seq<char>, bool)>) -> Option<bool>
    decreases replies.len(),
{
    if replies.len() == 0 {
        None
    } else {
        match first_verdict(id, replies.drop_last()) {
            Some(b) => Some(b),
            None => verdict(id, replies.last().0, replies.last().1),
        }
    }
}

/// An action is approved only by a reply that is meant for it and approves it.
pub proof fn approval_takes_a_matching_reply(id: RequestId, replies: Seq<(Seq<char>, bool)>)
    requires
        first_verdict(id, replies) == Some(true),
    ensures
        exists|i: int|
            0 <= i < replies.len() && meant_for((#[trigger] replies[i]).0, id) && replies[i].1,
    decreases replies.len(),
{
    if replies.len() > 0 {
        let p = replies.drop_last();
        if first_verdict(id, p) is Some {
            approval_takes_a_matching_reply(id, p);
            let i = choose|i: int| 0 <= i < p.len() && meant_for((#[trigger] p[i]).0, id) && p[i].1;
            assert(replies[i] == p[i]);
        } else {
            assert(replies[replies.len() - 1] == replies.last());
        }
    }
}

/// A denial that is meant for the request and comes before any approval of it
/// stands, whatever comes later.
pub proof fn an_early_denial_stands(
    id: RequestId,
    before: Seq<(Seq<char>, bool)>,
    denial: Seq<char>,
    after: Seq<(Seq<char>, bool)>,
)
    requires
        first_verdict(id, before) is None,
        meant_for(denial, id),
    ensures
        first_verdict(id, before.push((denial, false)) + after) == Some(false),
    decreases after.len(),
{
    let head = before.push((denial, false));
    assert(head.drop_last() =~= before);
    if after.len() == 0 {
        assert(head + after =~= head);
    } else {
        an_early_denial_stands(id, before, denial, after.drop_last());
        assert((head + after).drop_last() =~= head + after.drop_last());
    }
}

/// The error of an action that was not approved.
pub open spec fn gate_error(tool: Seq<char>, o: GateOutcome) -> Option<Seq<char>> {
    match o {
        GateOutcome::Allowed => None,
        GateOutcome::Denied => Some("user denied "@ + tool),
        GateOutcome::Timeout => Some("no confirmation in 30s"@),
        GateOutcome::PublishFailed(e) => Some("confirm publish failed: "@ + e@),
    }
}

/// The error of an action that was not approved; none when it may go on.
pub fn gate_refusal(tool: &str, outcome: &GateOutcome) -> (r: Option<String>)
    ensures
        opt_text(r) == gate_error(tool@, *outcome),
{
    match outcome {
        GateOutcome::Allowed => None,
        GateOutcome::Denied => Some(cat2("user denied ", tool)),
        GateOutcome::Timeout => Some(copy("no confirmation in 30s")),
        GateOutcome::PublishFailed(e) => Some(cat2("confirm publish failed: ", e.as_str())),
    }
}

/// Arguments of a click.
#[derive(Debug)]
pub struct ClickArgs {
    pub x: u32,
    pub y: u32,
    pub button: Option<String>,
    pub double: Option<bool>,
}

/// Arguments of typing.
#[derive(Debug)]
pub struct TypeTextArgs {
    pub text: String,
}

/// Arguments of a key press.
#[derive(Debug)]
pub struct KeyComboArgs {
    pub combo: String,
}

/// Arguments of scrolling.
#[derive(Debug)]
pub struct ScrollArgs {
    pub direction: String,
    pub amount: Option<u32>,
}

/// Arguments of focusing a window.
#[derive(Debug)]
pub struct FocusWindowArgs {
    pub query: String,
}

/// A command of `xdotool`.
#[derive(Debug)]
pub struct Command {
    /// What an error names.
    pub label: String,
    pub args: Vec<String>,
    pub timeout_ms: u64,
    /// Whether an error shows the standard output too.
    pub show_stdout: bool,
}

/// Whose class a preview and the policy need.
#[derive(Clone, Copy, Debug, PartialEq, Eq, Structural)]
pub enum Lookup {
    /// That of the window at a place.
    At(u32, u32),
    /// That of the focused window.
    Focused,
    /// Nobody's.
    Nothing,
}

/// What an action reports when it is done.
#[derive(Debug)]
pub enum Report {
    Click { x: u32, y: u32, button: String, double: bool },
    Typed { chars: u64 },
    Pressed { combo: String },
    Scrolled { direction: String, amount: u32 },
    Focused { query: String },
}

/// An action whose arguments were found good.
#[derive(Debug)]
pub struct ActionPlan {
    pub tool: String,
    pub kind: ActionKind,
    pub lookup: Lookup,
    pub combo: Option<String>,
    /// What the action is, in a few words.
    pub preview: String,
    /// What stands between the preview and the window's class.
    pub joint: String,
    pub commands: Vec<Command>,
    pub report: Report,
}

/// The content of a [`Command`].
pub struct CommandView {
    pub label: Seq<char>,
    pub args: Seq<Seq<char>>,
    pub timeout_ms: u64,
    pub show_stdout: bool,
}

/// The content of a [`Report`].
pub enum ReportView {
    Click { x: u32, y: u32, button: Seq<char>, double: bool },
    Typed { chars: u64 },
    Pressed { combo: Seq<char> },
    Scrolled { direction: Seq<char>, amount: u32 },
    Focused { query: Seq<char> },
}

/// The content of an [`ActionPlan`].
pub struct PlanView {
    pub tool: Seq<char>,
    pub kind: ActionKind,
    pub lookup: Lookup,
    pub combo: Option<Seq<char>>,
    pub preview: Seq<char>,
    pub joint: Seq<char>,
    pub commands: Seq<CommandView>,
    pub report: ReportView,
}

impl View for Command {
    type V = CommandView;

    open spec fn view(&self) -> CommandView {
        CommandView {
            label: self.label@,
            args: texts(self.args@),
            timeout_ms: self.timeout_ms,
            show_stdout: self.show_stdout,
        }
    }
}

impl View for Report {
    type V = ReportView;

    open spec fn view(&self) -> ReportView {
        match self {
            Report::Click { x, y, button, double } => ReportView::Click {
                x: *x,
                y: *y,
                button: button@,
                double: *double,
            },
            Report::Typed { chars } => ReportView::Typed { chars: *chars },
            Report::Pressed { combo } => ReportView::Pressed { combo: combo@ },
            Report::Scrolled { direction, amount } => ReportView::Scrolled {
                direction: direction@,
                amount: *amount,
            },
            Report::Focused { query } => ReportView::Focused { query: query@ },
        }
    }
}

pub open spec fn commands_view(v: Seq<Command>) -> Seq<CommandView> {
    v.map_values(|c: Command| c@)
}

impl View for ActionPlan {
    type V = PlanView;

    open spec fn view(&self) -> PlanView {
        PlanView {
            tool: self.tool@,
            kind: self.kind,
            lookup: self.lookup,
            combo: opt_text(self.combo),
            preview: self.preview@,
            joint: self.joint@,
            commands: commands_view(self.commands@),
            report: self.report@,
        }
    }
}

pub open spec fn command_view(label: Seq<char>, args: Seq<Seq<char>>, timeout_ms: u64) -> CommandView {
    CommandView { label, args, timeout_ms, show_stdout: false }
}

fn command(label: &str, args: &[&str], timeout_ms: u64) -> (r: Command)
    ensures
        r@ == command_view(label@, Seq::new(args@.len(), |i: int| args@[i]@), timeout_ms),
{
    Command { label: copy(label), args: strings(args), timeout_ms, show_stdout: false }
}

/// A plan, or the error of the arguments that it could not be made of.
pub type PlanResult = Result<PlanView, Seq<char>>;

pub open spec fn plan_result(r: Result<ActionPlan, String>) -> PlanResult {
    match r {
        Ok(p) => Ok(p@),
        Err(e) => Err(e@),
    }
}

/// The number of a mouse button.
pub open spec fn button_number(button: Seq<char>) -> Option<Seq<char>> {
    if button == "left"@ {
        Some("1"@)
    } else if button == "middle"@ {
        Some("2"@)
    } else if button == "right"@ {
        Some("3"@)
    } else {
        None
    }
}

/// A place on the screen as text.
pub open spec fn place(x: u32, y: u32) -> Seq<char> {
    "("@ + dec(x as nat) + ", "@ + dec(y as nat) + ")"@
}

/// The plan of a click.
pub open spec fn click_plan(a: ClickArgs) -> PlanResult {
    let button = match a.button {
        Some(b) => b@,
        None => "left"@,
    };
    let double = a.double is Some && a.double->0;
    match button_number(button) {
        None => Err("unknown button '"@ + button + "'"@),
        Some(n) => Ok(
            PlanView {
                tool: "click"@,
                kind: ActionKind::Click,
                lookup: Lookup::At(a.x, a.y),
                combo: None,
                preview: (if double {
                    "double "@
                } else {
                    ""@
                }) + button + "-click at "@ + place(a.x, a.y),
                joint: " over "@,
                commands: seq![
                    command_view(
                        "mousemove"@,
                        seq!["mousemove"@, "--sync"@, dec(a.x as nat), dec(a.y as nat)],
                        DEFAULT_TIMEOUT_MS,
                    ),
                    command_view(
                        "click"@,
                        if double {
                            seq!["click"@, "--repeat"@, "2"@, n]
                        } else {
                            seq!["click"@, n]
                        },
                        DEFAULT_TIMEOUT_MS,
                    ),
                ],
                report: ReportView::Click { x: a.x, y: a.y, button, double },
            },
        ),
    }
}

fn place_text(x: u32, y: u32) -> (r: String)
    ensures
        r@ == place(x, y),
{
    let a = decimal(x as u64);
    let b = decimal(y as u64);
    cat5("(", a.as_str(), ", ", b.as_str(), ")")
}

/// Plans a click.
pub fn plan_click(args: &ClickArgs) -> (r: Result<ActionPlan, String>)
    ensures
        plan_result(r) == click_plan(*args),
{
    let button = match &args.button {
        Some(b) => b.as_str(),
        None => "left",
    };
    let n = if same(button, "left") {
        "1"
    } else if same(button, "middle") {
        "2"
    } else if same(button, "right") {
        "3"
    } else {
        return Err(cat3("unknown button '", button, "'"));
    };
    let double: bool = match args.double {
        Some(d) => d,
        None => false,
    };
    let at = place_text(args.x, args.y);
    let preview = cat4(
        if double {
            "double "
        } else {
            ""
        },
        button,
        "-click at ",
        at.as_str(),
    );
    let xs = decimal(args.x as u64);
    let ys = decimal(args.y as u64);
    let mut commands: Vec<Command> = Vec::new();
    let move_args: [&str; 4] = ["mousemove", "--sync", xs.as_str(), ys.as_str()];
    let c1 = command("mousemove", &move_args, DEFAULT_TIMEOUT_MS);
    assert(c1@.args =~= seq!["mousemove"@, "--sync"@, dec(args.x as nat), dec(args.y as nat)]);
    let c2 = if double {
        let a: [&str; 4] = ["click", "--repeat", "2", n];
        let c = command("click", &a, DEFAULT_TIMEOUT_MS);
        assert(c@.args =~= seq!["click"@, "--repeat"@, "2"@, n@]);
        c
    } else {
        let a: [&str; 2] = ["click", n];
        let c = command("click", &a, DEFAULT_TIMEOUT_MS);
        assert(c@.args =~= seq!["click"@, n@]);
        c
    };
    commands.push(c1);
    commands.push(c2);
    assert(commands_view(commands@) =~= seq![c1@, c2@]);
    Ok(
        ActionPlan {
            tool: copy("click"),
            kind: ActionKind::Click,
            lookup: Lookup::At(args.x, args.y),
            combo: None,
            preview,
            joint: copy(" over "),
            commands,
            report: Report::Click { x: args.x, y: args.y, button: copy(button), double },
        },
    )
}

/// Why a text may not be typed, if it may not.
pub open spec fn typed_text_error(text: Seq<char>) -> Option<Seq<char>> {
    if has(text, "--clearmodifiers"@) {
        Some("text must not contain '--clearmodifiers'"@)
    } else if starts_with(text, "-"@) {
        Some("text must not start with '-' (would look like an xdotool flag despite -- guard)"@)
    } else {
        None
    }
}

pub open spec fn unit_result(r: Result<(), String>) -> Option<Seq<char>> {
    match r {
        Ok(()) => None,
        Err(e) => Some(e@),
    }
}

/// Checks that a text can be typed without being taken for an option.
pub fn validate_typed_text(text: &str) -> (r: Result<(), String>)
    ensures
        unit_result(r) == typed_text_error(text@),
{
    if contains(text, "--clearmodifiers") {
        return Err(copy("text must not contain '--clearmodifiers'"));
    }
    if begins(text, "-") {
        return Err(
            copy("text must not start with '-' (would look like an xdotool flag despite -- guard)"),
        );
    }
    Ok(())
}

/// The plan of typing a text.
pub open spec fn type_plan(text: Seq<char>) -> PlanResult {
    if text.len() == 0 {
        Err("text must not be empty"@)
    } else if text.len() > TYPE_TEXT_MAX {
        Err("text exceeds 4096-char cap"@)
    } else {
        match typed_text_error(text) {
            Some(e) => Err(e),
            None => Ok(
                PlanView {
                    tool: "type_text"@,
                    kind: ActionKind::Type,
                    lookup: Lookup::Focused,
                    combo: None,
                    preview: "type "@ + dec(text.len()) + " chars"@,
                    joint: " into "@,
                    commands: seq![
                        command_view(
                            "type"@,
                            seq!["type"@, "--delay"@, "30"@, "--"@, text],
                            30000,
                        ),
                    ],
                    report: ReportView::Typed { chars: text.len() as u64 },
                },
            ),
        }
    }
}

/// Plans typing a text.
pub fn plan_type(args: &TypeTextArgs) -> (r: Result<ActionPlan, String>)
    ensures
        plan_result(r) == type_plan(args.text@),
{
    let text = args.text.as_str();
    let n: usize = chars_of(text).len();
    if n == 0 {
        return Err(copy("text must not be empty"));
    }
    if n > TYPE_TEXT_MAX {
        return Err(copy("text exceeds 4096-char cap"));
    }
    if let Err(e) = validate_typed_text(text) {
        return Err(e);
    }
    let count = decimal(n as u64);
    let a: [&str; 5] = ["type", "--delay", "30", "--", text];
    let c = command("type", &a, 30000);
    assert(c@.args =~= seq!["type"@, "--delay"@, "30"@, "--"@, text@]);
    let mut commands: Vec<Command> = Vec::new();
    commands.push(c);
    assert(commands_view(commands@) =~= seq![c@]);
    Ok(
        ActionPlan {
            tool: copy("type_text"),
            kind: ActionKind::Type,
            lookup: Lookup::Focused,
            combo: None,
            preview: cat3("type ", count.as_str(), " chars"),
            joint: copy(" into "),
            commands,
            report: Report::Typed { chars: n as u64 },
        },
    )
}

/// A character that may stand in a key combination.
pub open spec fn combo_char(c: char) -> bool {
    ('A' <= c <= 'Z') || ('a' <= c <= 'z') || ('0' <= c <= '9') || c == '_' || c == '+'
}

/// Why a key combination is refused, if it is.
pub open spec fn combo_error(combo: Seq<char>) -> Option<Seq<char>> {
    if combo.len() == 0 {
        Some("combo must not be empty"@)
    } else if exists|i: int| 0 <= i < combo.len() && !combo_char(#[trigger] combo[i]) {
        Some(
            "combo '"@ + combo
                + "' contains disallowed characters (only A-Z, a-z, 0-9, '_', '+')"@,
        )
    } else {
        None
    }
}

/// Checks a key combination: only letters, digits, `_` and `+`.
pub fn validate_combo(combo: &str) -> (r: Result<(), String>)
    ensures
        unit_result(r) == combo_error(combo@),
{
    let v = chars_of(combo);
    let n: usize = v.len();
    if n == 0 {
        return Err(copy("combo must not be empty"));
    }
    let mut i: usize = 0;
    while i < n
        invariant
            i <= n,
            n == v@.len(),
            n > 0,
            v@ == combo@,
            forall|j: int| 0 <= j < i ==> combo_char(#[trigger] combo@[j]),
        decreases n - i,
    {
        let c: char = v[i];
        let good: bool = ('A' <= c && c <= 'Z') || ('a' <= c && c <= 'z') || ('0' <= c && c <= '9')
            || c == '_' || c == '+';
        if !good {
            assert(!combo_char(combo@[i as int]));
            return Err(
                cat3(
                    "combo '",
                    combo,
                    "' contains disallowed characters (only A-Z, a-z, 0-9, '_', '+')",
                ),
            );
        }
        i += 1;
    }
    Ok(())
}

/// The plan of a key press.
pub open spec fn key_plan(combo: Seq<char>) -> PlanResult {
    match combo_error(combo) {
        Some(e) => Err(e),
        None => Ok(
            PlanView {
                tool: "key_combo"@,
                kind: ActionKind::Key,
                lookup: Lookup::Focused,
                combo: Some(combo),
                preview: "press "@ + combo,
                joint: " over "@,
                commands: seq![
                    command_view(
                        "key"@,
                        seq!["key"@, "--clearmodifiers"@, combo],
                        DEFAULT_TIMEOUT_MS,
                    ),
                ],
                report: ReportView::Pressed { combo },
            },
        ),
    }
}

/// Plans a key press.
pub fn plan_key(args: &KeyComboArgs) -> (r: Result<ActionPlan, String>)
    ensures
        plan_result(r) == key_plan(args.combo@),
{
    let combo = args.combo.as_str();
    if let Err(e) = validate_combo(combo) {
        return Err(e);
    }
    let a: [&str; 3] = ["key", "--clearmodifiers", combo];
    let c = command("key", &a, DEFAULT_TIMEOUT_MS);
    assert(c@.args =~= seq!["key"@, "--clearmodifiers"@, combo@]);
    let mut commands: Vec<Command> = Vec::new();
    commands.push(c);
    assert(commands_view(commands@) =~= seq![c@]);
    Ok(
        ActionPlan {
            tool: copy("key_combo"),
            kind: ActionKind::Key,
            lookup: Lookup::Focused,
            combo: Some(copy(combo)),
            preview: cat2("press ", combo),
            joint: copy(" over "),
            commands,
            report: Report::Pressed { combo: copy(combo) },
        },
    )
}

/// The number of the button that scrolls in a direction.
pub open spec fn scroll_button(direction: Seq<char>) -> Option<Seq<char>> {
    if direction == "up"@ {
        Some("4"@)
    } else if direction == "down"@ {
        Some("5"@)
    } else if direction == "left"@ {
        Some("6"@)
    } else if direction == "right"@ {
        Some("7"@)
    } else {
        None
    }
}

/// How far is scrolled: three ticks by default, from one to fifty.
pub open spec fn scroll_amount(amount: Option<u32>) -> u32 {
    let n = match amount {
        Some(n) => n,
        None => 3,
    };
    if n < 1 {
        1
    } else if n > 50 {
        50
    } else {
        n
    }
}

/// The plan of scrolling.
pub open spec fn scroll_plan(direction: Seq<char>, amount: Option<u32>) -> PlanResult {
    let n = scroll_amount(amount);
    match scroll_button(direction) {
        None => Err("unknown direction '"@ + direction + "'"@),
        Some(b) => Ok(
            PlanView {
                tool: "scroll"@,
                kind: ActionKind::Scroll,
                lookup: Lookup::Focused,
                combo: None,
                preview: "scroll "@ + direction + " x"@ + dec(n as nat),
                joint: " over "@,
                commands: seq![
                    command_view(
                        "scroll"@,
                        seq!["click"@, "--repeat"@, dec(n as nat), b],
                        DEFAULT_TIMEOUT_MS,
                    ),
                ],
                report: ReportView::Scrolled { direction, amount: n },
            },
        ),
    }
}

/// Plans scrolling.
pub fn plan_scroll(args: &ScrollArgs) -> (r: Result<ActionPlan, String>)
    ensures
        plan_result(r) == scroll_plan(args.direction@, args.amount),
{
    let asked: u32 = match args.amount {
        Some(n) => n,
        None => 3,
    };
    let n: u32 = if asked < 1 {
        1
    } else if asked > 50 {
        50
    } else {
        asked
    };
    let direction = args.direction.as_str();
    let b = if same(direction, "up") {
        "4"
    } else if same(direction, "down") {
        "5"
    } else if same(direction, "left") {
        "6"
    } else if same(direction, "right") {
        "7"
    } else {
        return Err(cat3("unknown direction '", direction, "'"));
    };
    let count = decimal(n as u64);
    let a: [&str; 4] = ["click", "--repeat", count.as_str(), b];
    let c = command("scroll", &a, DEFAULT_TIMEOUT_MS);
    assert(c@.args =~= seq!["click"@, "--repeat"@, dec(n as nat), b@]);
    let mut commands: Vec<Command> = Vec::new();
    commands.push(c);
    assert(commands_view(commands@) =~= seq![c@]);
    Ok(
        ActionPlan {
            tool: copy("scroll"),
            kind: ActionKind::Scroll,
            lookup: Lookup::Focused,
            combo: None,
            preview: cat4("scroll ", direction, " x", count.as_str()),
            joint: copy(" over "),
            commands,
            report: Report::Scrolled { direction: copy(direction), amount: n },
        },
    )
}

/// The plan of focusing a window.
pub open spec fn focus_plan(raw: Seq<char>) -> PlanResult {
    let query = trim(raw);
    if query.len() == 0 {
        Err("query must not be empty"@)
    } else if byte_len(query) > 256 {
        Err("query exceeds 256-char cap"@)
    } else {
        Ok(
            PlanView {
                tool: "focus_window"@,
                kind: ActionKind::FocusWindow,
                lookup: Lookup::Nothing,
                combo: None,
                preview: "focus window matching '"@ + query + "'"@,
                joint: ""@,
                commands: seq![
                    CommandView {
                        label: "search/activate"@,
                        args: seq!["search"@, "--name"@, query, "windowactivate"@, "%1"@],
                        timeout_ms: DEFAULT_TIMEOUT_MS,
                        show_stdout: true,
                    },
                ],
                report: ReportView::Focused { query },
            },
        )
    }
}

/// Plans focusing a window.
pub fn plan_focus(args: &FocusWindowArgs) -> (r: Result<ActionPlan, String>)
    ensures
        plan_result(r) == focus_plan(args.query@),
{
    let query = trimmed(args.query.as_str());
    if query.as_str().is_empty() {
        return Err(copy("query must not be empty"));
    }
    if size(query.as_str()) > 256 {
        return Err(copy("query exceeds 256-char cap"));
    }
    let a: [&str; 5] = ["search", "--name", query.as_str(), "windowactivate", "%1"];
    let args_list = strings(&a);
    assert(texts(args_list@) =~= seq!["search"@, "--name"@, query@, "windowactivate"@, "%1"@]);
    let c = Command {
        label: copy("search/activate"),
        args: args_list,
        timeout_ms: DEFAULT_TIMEOUT_MS,
        show_stdout: true,
    };
    let mut commands: Vec<Command> = Vec::new();
    commands.push(c);
    assert(commands_view(commands@) =~= seq![c@]);
    Ok(
        ActionPlan {
            tool: copy("focus_window"),
            kind: ActionKind::FocusWindow,
            lookup: Lookup::Nothing,
            combo: None,
            preview: cat3("focus window matching '", query.as_str(), "'"),
            joint: copy(""),
            commands,
            report: Report::Focused { query: copy(query.as_str()) },
        },
    )
}

/// The preview of an action over a window of some class.
pub open spec fn full_preview(p: PlanView, class: Option<Seq<char>>) -> Seq<char> {
    match class {
        Some(c) => p.preview + p.joint + c,
        None => p.preview,
    }
}

/// A class as a document: null where it is not known.
pub open spec fn class_json(class: Option<Seq<char>>) -> JVal {
    match class {
        Some(c) => JVal::Str(c),
        None => JVal::Null,
    }
}

/// What an action reports.
pub open spec fn report_json(r: ReportView, class: Option<Seq<char>>) -> JVal {
    match r {
        ReportView::Click { x, y, button, double } => JVal::object().with(
            "clicked"@,
            JVal::Str(place(x, y)),
        ).with("over"@, class_json(class)).with("button"@, JVal::Str(button)).with(
            "double"@,
            JVal::Bool(double),
        ),
        ReportView::Typed { chars } => JVal::object().with("typed_chars"@, JVal::UInt(chars)).with(
            "over"@,
            class_json(class),
        ),
        ReportView::Pressed { combo } => JVal::object().with("combo"@, JVal::Str(combo)).with(
            "over"@,
            class_json(class),
        ),
        ReportView::Scrolled { direction, amount } => JVal::object().with(
            "direction"@,
            JVal::Str(direction),
        ).with("amount"@, JVal::UInt(amount as u64)),
        ReportView::Focused { query } => JVal::object().with("focused"@, JVal::Str(query)),
    }
}

fn class_to_json(class: Option<&str>) -> (r: Json)
    ensures
        r@ == class_json(opt_str(class)),
{
    match class {
        Some(c) => Json::text(c),
        None => Json::Null,
    }
}

impl ActionPlan {
    /// The preview of the action over a window of some class.
    pub fn preview_over(&self, class: Option<&str>) -> (r: String)
        ensures
            r@ == full_preview(self@, opt_str(class)),
    {
        match class {
            Some(c) => cat3(self.preview.as_str(), self.joint.as_str(), c),
            None => copy(self.preview.as_str()),
        }
    }

    /// What the action reports when it is done.
    pub fn report_text(&self, class: Option<&str>) -> (r: String)
        ensures
            r@ == record_text(report_json(self@.report, opt_str(class))),
    {
        let j = match &self.report {
            Report::Click { x, y, button, double } => {
                let at = place_text(*x, *y);
                Json::object().with_text("clicked", at.as_str()).with(
                    "over",
                    class_to_json(class),
                ).with_text("button", button.as_str()).with("double", Json::Bool(*double))
            },
            Report::Typed { chars } => Json::object().with("typed_chars", Json::UInt(*chars)).with(
                "over",
                class_to_json(class),
            ),
            Report::Pressed { combo } => Json::object().with_text("combo", combo.as_str()).with(
                "over",
                class_to_json(class),
            ),
            Report::Scrolled { direction, amount } => Json::object().with_text(
                "direction",
                direction.as_str(),
            ).with("amount", Json::UInt(*amount as u64)),
            Report::Focused { query } => Json::object().with_text("focused", query.as_str()),
        };
        render_record(&j)
    }

    /// Whether the action needs approval.
    pub fn gate_action(&self, policy: &SafetyPolicy, class: Option<&str>) -> (r: SmartDecision)
        ensures
            ({
                let b = bypass(
                    policy.mode,
                    texts(policy.safe_keys@),
                    texts(policy.safe_focus_apps@),
                    self@.kind,
                    self@.combo,
                    opt_str(class),
                );
                match r {
                    SmartDecision::Bypass(why) => b == Some(why@),
                    SmartDecision::MustConfirm => b is None,
                }
            }),
    {
        let combo = match &self.combo {
            Some(c) => Some(c.as_str()),
            None => None,
        };
        evaluate_smart(policy, self.kind, combo, class)
    }
}

/// The error of a command that failed.
pub open spec fn command_error(c: CommandView, stdout: Seq<char>, stderr: Seq<char>) -> Seq<char> {
    "xdotool "@ + c.label + ": "@ + (if c.show_stdout {
        trim(stdout) + " "@ + trim(stderr)
    } else {
        trim(stderr)
    })
}

/// The error of a command, if it failed.
pub fn command_failure(c: &Command, out: &CmdOutput) -> (r: Option<String>)
    ensures
        opt_text(r) == (if out.status_ok {
            None
        } else {
            Some(command_error(c@, out.stdout@, out.stderr@))
        }),
{
    if out.status_ok {
        return None;
    }
    let err = trimmed(out.stderr.as_str());
    let detail = if c.show_stdout {
        let shown = trimmed(out.stdout.as_str());
        cat3(shown.as_str(), " ", err.as_str())
    } else {
        err
    };
    Some(cat4("xdotool ", c.label.as_str(), ": ", detail.as_str()))
}

/// What the driver of an action has to do next.
#[derive(Debug)]
pub enum ActionStep {
    /// Ask for approval with this preview.
    Confirm(String),
    /// Run the command with this index.
    Run(usize),
    /// The action is over.
    Done(Result<String, String>),
}

/// An action under way.
pub struct ActionRun {
    pub plan: ActionPlan,
    /// The class of the window that the action goes to.
    pub class: Option<String>,
    /// How many commands were run.
    pub done: usize,
    /// Whether the action was approved.
    pub cleared: bool,
}

impl ActionRun {
    /// Begins an action, once the class of its window is known: it goes on at
    /// once where it needs no approval.
    pub fn begin(plan: ActionPlan, class: Option<String>, policy: &SafetyPolicy) -> (r: (
        ActionRun,
        ActionStep,
    ))
        requires
            plan.commands@.len() > 0,
        ensures
            r.0.plan == plan,
            r.0.class == class,
            r.0.done == 0,
            r.0.cleared == (bypass(
                policy.mode,
                texts(policy.safe_keys@),
                texts(policy.safe_focus_apps@),
                plan@.kind,
                plan@.combo,
                opt_text(class),
            ) is Some),
            match r.1 {
                ActionStep::Confirm(preview) => !r.0.cleared && preview@ == full_preview(
                    plan@,
                    opt_text(class),
                ),
                ActionStep::Run(i) => r.0.cleared && i == 0,
                ActionStep::Done(_) => false,
            },
    {
        let c = match &class {
            Some(s) => Some(s.as_str()),
            None => None,
        };
        match plan.gate_action(policy, c) {
            SmartDecision::Bypass(_) => (
                ActionRun { plan, class, done: 0, cleared: true },
                ActionStep::Run(0),
            ),
            SmartDecision::MustConfirm => {
                let preview = plan.preview_over(c);
                (ActionRun { plan, class, done: 0, cleared: false }, ActionStep::Confirm(preview))
            },
        }
    }

    /// Takes the outcome of asking for approval.
    pub fn on_gate(&mut self, outcome: &GateOutcome) -> (r: ActionStep)
        requires
            !old(self).cleared,
            old(self).done == 0,
        ensures
            final(self).plan == old(self).plan,
            final(self).class == old(self).class,
            final(self).done == 0,
            final(self).cleared == (*outcome is Allowed),
            match r {
                ActionStep::Run(i) => *outcome is Allowed && i == 0,
                ActionStep::Done(d) => !(*outcome is Allowed) && d is Err && gate_error(
                    old(self).plan@.tool,
                    *outcome,
                ) == Some(d->Err_0@),
                ActionStep::Confirm(_) => false,
            },
    {
        match gate_refusal(self.plan.tool.as_str(), outcome) {
            Some(e) => ActionStep::Done(Err(e)),
            None => {
                self.cleared = true;
                ActionStep::Run(0)
            },
        }
    }

    /// Takes the output of the command that was run last, or the reason why it
    /// could not be run.
    pub fn on_output(&mut self, out: Result<CmdOutput, String>) -> (r: ActionStep)
        requires
            old(self).cleared,
            old(self).done < old(self).plan.commands@.len(),
        ensures
            final(self).plan == old(self).plan,
            final(self).class == old(self).class,
            final(self).cleared,
            match out {
                Err(e) => {
                    &&& r is Done && r->Done_0 is Err && r->Done_0->Err_0@ == e@
                    &&& final(self).done == old(self).done
                },
                Ok(o) => if !o.status_ok {
                    &&& r is Done && r->Done_0 is Err
                    &&& r->Done_0->Err_0@ == command_error(
                        old(self).plan.commands@[old(self).done as int]@,
                        o.stdout@,
                        o.stderr@,
                    )
                    &&& final(self).done == old(self).done
                } else if old(self).done + 1 < old(self).plan.commands@.len() {
                    r == ActionStep::Run((old(self).done + 1) as usize) && final(self).done == old(
                        self,
                    ).done + 1
                } else {
                    &&& r is Done && r->Done_0 is Ok
                    &&& r->Done_0->Ok_0@ == record_text(
                        report_json(old(self).plan@.report, opt_text(old(self).class)),
                    )
                    &&& final(self).done == old(self).done + 1
                },
            },
    {
        match out {
            Err(e) => ActionStep::Done(Err(e)),
            Ok(o) => {
                if let Some(e) = command_failure(&self.plan.commands[self.done], &o) {
                    return ActionStep::Done(Err(e));
                }
                assert(self.done < self.plan.commands.len());
                self.done = self.done + 1;
                if self.done < self.plan.commands.len() {
                    ActionStep::Run(self.done)
                } else {
                    let c = match &self.class {
                        Some(s) => Some(s.as_str()),
                        None => None,
                    };
                    ActionStep::Done(Ok(self.plan.report_text(c)))
                }
            },
        }
    }
}

/// A command's output without white space around it, where it succeeded and
/// said something.
pub open spec fn said(status_ok: bool, stdout: Seq<char>) -> Option<Seq<char>> {
    if status_ok && trim(stdout).len() > 0 {
        Some(trim(stdout))
    } else {
        None
    }
}

/// The class or the title that a command has printed.
pub fn active_window_class(out: &CmdOutput) -> (r: Option<String>)
    ensures
        opt_text(r) == said(out.status_ok, out.stdout@),
{
    if !out.status_ok {
        return None;
    }
    let s = trimmed(out.stdout.as_str());
    if s.as_str().is_empty() {
        None
    } else {
        Some(s)
    }
}

/// What follows a prefix on the first line that has it.
pub open spec fn first_after(ls: Seq<Seq<char>>, prefix: Seq<char>) -> Option<Seq<char>>
    decreases ls.len(),
{
    if ls.len() == 0 {
        None
    } else if starts_with(ls[0], prefix) {
        Some(ls[0].skip(prefix.len() as int))
    } else {
        first_after(ls.drop_first(), prefix)
    }
}

/// The identifier of the window under the pointer, from the location listing.
pub fn class_at_coord(out: &CmdOutput) -> (r: Option<String>)
    ensures
        opt_text(r) == (if out.status_ok {
            first_after(lines(out.stdout@), "WINDOW="@)
        } else {
            None
        }),
{
    if !out.status_ok {
        return None;
    }
    let ls = split_lines(out.stdout.as_str());
    let n: usize = ls.len();
    let mut i: usize = 0;
    let ghost all = lines(out.stdout@);
    assert(all.skip(0) =~= all);
    while i < n
        invariant
            i <= n,
            n == ls@.len(),
            all == texts(ls@),
            all == lines(out.stdout@),
            out.status_ok,
            first_after(all, "WINDOW="@) == first_after(all.skip(i as int), "WINDOW="@),
        decreases n - i,
    {
        assert(all.skip(i as int)[0] == ls@[i as int]@);
        assert(all.skip(i as int).drop_first() =~= all.skip(i as int + 1));
        if let Some(rest) = strip_prefix(ls[i].as_str(), "WINDOW=") {
            return Some(rest);
        }
        i += 1;
    }
    assert(all.skip(i as int) =~= Seq::empty());
    None
}

/// Where the pointer is.
#[derive(Debug)]
pub struct MouseLocation {
    pub x: i64,
    pub y: i64,
    pub window: Option<String>,
}

/// The content of a [`MouseLocation`].
pub struct MouseView {
    pub x: int,
    pub y: int,
    pub window: Option<Seq<char>>,
}

impl View for MouseLocation {
    type V = MouseView;

    open spec fn view(&self) -> MouseView {
        MouseView { x: self.x as int, y: self.y as int, window: opt_text(self.window) }
    }
}

/// A number, or zero where the text is none.
pub open spec fn number_or_zero(s: Seq<char>) -> int {
    match read_int(s) {
        Some(n) => n,
        None => 0,
    }
}

/// A location after one more line of the listing.
pub open spec fn mouse_line(m: MouseView, line: Seq<char>) -> MouseView {
    if starts_with(line, "X="@) {
        MouseView { x: number_or_zero(trim(line.skip("X="@.len() as int))), ..m }
    } else if starts_with(line, "Y="@) {
        MouseView { y: number_or_zero(trim(line.skip("Y="@.len() as int))), ..m }
    } else if starts_with(line, "WINDOW="@) {
        MouseView { window: Some(trim(line.skip("WINDOW="@.len() as int))), ..m }
    } else {
        m
    }
}

/// The location that a listing gives.
pub open spec fn mouse_lines(ls: Seq<Seq<char>>) -> MouseView
    decreases ls.len(),
{
    if ls.len() == 0 {
        MouseView { x: 0, y: 0, window: None }
    } else {
        mouse_line(mouse_lines(ls.drop_last()), ls.last())
    }
}

fn parse_or_zero(s: &str) -> (r: i64)
    ensures
        r == number_or_zero(trim(s@)),
{
    let t = trimmed(s);
    match parse_int(t.as_str()) {
        Some(n) => n,
        None => 0,
    }
}

/// Reads a location listing.
pub fn parse_mouse(stdout: &str) -> (r: MouseLocation)
    ensures
        r@ == mouse_lines(lines(stdout@)),
{
    let ls = split_lines(stdout);
    let n: usize = ls.len();
    let mut i: usize = 0;
    let mut m = MouseLocation { x: 0, y: 0, window: None };
    let ghost all = lines(stdout@);
    assert(all.take(0) =~= Seq::empty());
    while i < n
        invariant
            i <= n,
            n == ls@.len(),
            all == texts(ls@),
            m@ == mouse_lines(all.take(i as int)),
        decreases n - i,
    {
        proof {
            assert(all.take(i as int + 1).drop_last() =~= all.take(i as int));
            assert(all[i as int] == ls@[i as int]@);
        }
        let line = ls[i].as_str();
        if let Some(v) = strip_prefix(line, "X=") {
            m.x = parse_or_zero(v.as_str());
        } else if let Some(v) = strip_prefix(line, "Y=") {
            m.y = parse_or_zero(v.as_str());
        } else if let Some(v) = strip_prefix(line, "WINDOW=") {
            m.window = Some(trimmed(v.as_str()));
        }
        i += 1;
    }
    assert(all.take(n as int) =~= all);
    m
}

/// An integer as a document.
pub open spec fn int_json(n: i64) -> JVal {
    if n < 0 {
        JVal::NegInt(n)
    } else {
        JVal::UInt(n as u64)
    }
}

/// The location, and the window under the pointer, as text.
pub fn mouse_report(m: &MouseLocation, class: Option<&str>, title: Option<&str>) -> (r: String)
    ensures
        r@ == record_text(
            JVal::object().with("x"@, int_json(m.x)).with("y"@, int_json(m.y)).with(
                "window_class"@,
                class_json(opt_str(class)),
            ).with("window_title"@, class_json(opt_str(title))),
        ),
{
    let x = if m.x < 0 {
        Json::NegInt(m.x)
    } else {
        Json::UInt(m.x as u64)
    };
    let y = if m.y < 0 {
        Json::NegInt(m.y)
    } else {
        Json::UInt(m.y as u64)
    };
    let j = Json::object().with("x", x).with("y", y).with("window_class", class_to_json(class)).with(
        "window_title",
        class_to_json(title),
    );
    render_record(&j)
}

/// `click`: moves the pointer and clicks.
pub struct Click {
    pub policy: SafetyPolicy,
}

/// `type_text`: types into the focused window.
pub struct TypeText {
    pub policy: SafetyPolicy,
}

/// `key_combo`: presses a key combination.
pub struct KeyCombo {
    pub policy: SafetyPolicy,
}

/// `scroll`: turns the wheel.
pub struct Scroll {
    pub policy: SafetyPolicy,
}

/// `focus_window`: activates a window by its title.
pub struct FocusWindow {
    pub policy: SafetyPolicy,
}

/// `get_mouse`: tells where the pointer is. It changes nothing and needs no
/// approval.
pub struct GetMouse;

} // verus!
