//! When an action on the desktop needs approval, and what it then does.
use vstd::prelude::*;
use crate::decimal::{dec, read_int};
use crate::json::JVal;
use crate::search::{lower_ascii_text, starts_with, trim};
use crate::text::byte_len;
use crate::tools::computer::{
    bypass, click_plan, combo_error, command_error, expiry, first_after, first_verdict, focus_plan,
    full_preview, gate_error, key_plan, meant_for, mode_of, mouse_lines, navigation_keys,
    report_json, said, scroll_plan, type_plan, typing_apps, ActionKind, ClickArgs, CommandView,
    GateOutcome, Lookup, PlanView, ReportView, SafetyMode,
};
use crate::wire::RequestId;

verus! {

/// Which names the safety modes have, case and surrounding white space aside.
pub proof fn each_mode_has_one_name(s: Seq<char>)
    ensures
        mode_of(s) == Some(SafetyMode::Off) <==> lower_ascii_text(trim(s)) == "off"@,
        mode_of(s) == Some(SafetyMode::Confirm) <==> lower_ascii_text(trim(s)) == "confirm"@,
        mode_of(s) == Some(SafetyMode::Smart) <==> lower_ascii_text(trim(s)) == "smart"@,
{
    reveal_strlit("off");
    reveal_strlit("confirm");
    reveal_strlit("smart");
    assert("off"@.len() == 3 && "confirm"@.len() == 7 && "smart"@.len() == 5);
}

/// In the smart mode exactly two things go without approval: a key combination that is
/// listed as harmless, and typing or pressing keys in a window whose class is listed,
/// whatever its case.
pub proof fn smart_mode_spares_what_is_listed(
    keys: Seq<Seq<char>>,
    apps: Seq<Seq<char>>,
    action: ActionKind,
    combo: Option<Seq<char>>,
    class: Option<Seq<char>>,
)
    ensures
        bypass(SafetyMode::Smart, keys, apps, action, combo, class) is Some <==> {
            ||| action == ActionKind::Key && combo is Some && exists|i: int|
                0 <= i < keys.len() && #[trigger] keys[i] == combo->0
            ||| (action == ActionKind::Key || action == ActionKind::Type) && class is Some
                && exists|i: int|
                0 <= i < apps.len() && lower_ascii_text(#[trigger] apps[i]) == lower_ascii_text(
                    trim(class->0),
                )
        },
{
    if combo is Some && keys.contains(combo->0) {
        let i = choose|i: int| 0 <= i < keys.len() && keys[i] == combo->0;
        assert(keys[i] == combo->0);
    }
}

/// The first reply that is meant for a request decides, and no other does: one that
/// names it, or names all, or names none.
pub proof fn the_first_reply_that_is_meant_decides(
    id: RequestId,
    replies: Seq<(Seq<char>, bool)>,
)
    ensures
        match first_verdict(id, replies) {
            Some(approved) => exists|i: int|
                0 <= i < replies.len() && for_request((#[trigger] replies[i]).0, id)
                    && replies[i].1 == approved && forall|j: int|
                    0 <= j < i ==> !for_request((#[trigger] replies[j]).0, id),
            None => forall|j: int|
                0 <= j < replies.len() ==> !for_request((#[trigger] replies[j]).0, id),
        },
    decreases replies.len(),
{
    if replies.len() > 0 {
        let p = replies.drop_last();
        let n = replies.len() - 1;
        the_first_reply_that_is_meant_decides(id, p);
        reveal_strlit("*");
        assert forall|s: Seq<char>| #[trigger] for_request(s, id) == meant_for(s, id) by {
            if s == seq!['*'] {
                assert(s =~= "*"@);
            }
            assert("*"@ =~= seq!['*']);
            assert(s.len() == 0 <==> s =~= Seq::<char>::empty());
        }
        match first_verdict(id, p) {
            Some(b) => {
                let i = choose|i: int|
                    0 <= i < p.len() && for_request((#[trigger] p[i]).0, id) && p[i].1 == b
                        && forall|j: int| 0 <= j < i ==> !for_request((#[trigger] p[j]).0, id);
                assert(replies[i] == p[i]);
                assert forall|j: int| 0 <= j < i implies !for_request(
                    (#[trigger] replies[j]).0,
                    id,
                ) by {
                    assert(p[j] == replies[j]);
                }
            },
            None => {
                assert forall|j: int| 0 <= j < n implies !for_request(
                    (#[trigger] replies[j]).0,
                    id,
                ) by {
                    assert(p[j] == replies[j]);
                }
                assert(for_request(replies[n].0, id) == meant_for(replies[n].0, id));
            },
        }
    }
}

/// A reply is for a request when it names it, or every request, or none.
pub open spec fn for_request(reply_id: Seq<char>, id: RequestId) -> bool {
    reply_id == id.text() || reply_id == seq!['*'] || reply_id == Seq::<char>::empty()
}

/// A request for approval runs out after thirty seconds.
pub proof fn a_request_runs_out_after_thirty_seconds(now_ns: u64)
    ensures
        now_ns <= u64::MAX - 30_000_000_000 ==> expiry(now_ns) == now_ns + 30_000_000_000,
        now_ns > u64::MAX - 30_000_000_000 ==> expiry(now_ns) == u64::MAX,
{
}

/// The number of a mouse button, by its name; the left one where none is named.
pub open spec fn button(a: ClickArgs) -> Option<(Seq<char>, Seq<char>)> {
    match a.button {
        None => Some(("left"@, "1"@)),
        Some(b) => if b@ == "left"@ {
            Some(("left"@, "1"@))
        } else if b@ == "middle"@ {
            Some(("middle"@, "2"@))
        } else if b@ == "right"@ {
            Some(("right"@, "3"@))
        } else {
            None
        },
    }
}

/// A click moves the pointer to its place and then presses the button that was named,
/// once or twice; an unknown button is refused.
pub proof fn a_click_moves_and_then_presses(a: ClickArgs)
    ensures
        click_plan(a) is Ok <==> button(a) is Some,
        click_plan(a) is Ok ==> {
            let p = click_plan(a)->Ok_0;
            let (name, number) = button(a)->0;
            let twice = a.double == Some(true);
            &&& p.tool == "click"@
            &&& p.kind == ActionKind::Click
            &&& p.lookup == Lookup::At(a.x, a.y)
            &&& p.combo is None
            &&& p.commands.len() == 2
            &&& p.commands[0].args == seq![
                "mousemove"@,
                "--sync"@,
                dec(a.x as nat),
                dec(a.y as nat),
            ]
            &&& p.commands[1].args == (if twice {
                seq!["click"@, "--repeat"@, "2"@, number]
            } else {
                seq!["click"@, number]
            })
            &&& p.report == (ReportView::Click { x: a.x, y: a.y, button: name, double: twice })
        },
{
    reveal_strlit("left");
    reveal_strlit("middle");
    reveal_strlit("right");
    assert("left"@.len() == 4 && "middle"@.len() == 6 && "right"@.len() == 5);
}

/// A text is typed as it is, behind a mark that keeps it from being read as an option;
/// it is refused when it is empty, too long, or looks like an option all the same.
pub proof fn a_text_is_typed_as_it_is(text: Seq<char>)
    ensures
        type_plan(text) is Ok <==> 0 < text.len() <= 4096 && text[0] != '-'
            && !crate::search::has(text, "--clearmodifiers"@),
        type_plan(text) is Ok ==> {
            let p = type_plan(text)->Ok_0;
            &&& p.tool == "type_text"@
            &&& p.kind == ActionKind::Type
            &&& p.lookup == Lookup::Focused
            &&& p.commands.len() == 1
            &&& p.commands[0].args == seq!["type"@, "--delay"@, "30"@, "--"@, text]
            &&& p.report == (ReportView::Typed { chars: text.len() as u64 })
        },
{
    reveal_strlit("-");
    if text.len() > 0 {
        assert(text.subrange(0, 1)[0] == text[0]);
        if text[0] == '-' {
            assert(text.subrange(0, 1) =~= "-"@);
        }
    }
}

/// A key combination is pressed as it is when it is made of letters, digits,
/// underscores and pluses, and is refused otherwise.
pub proof fn only_plain_combinations_are_pressed(combo: Seq<char>)
    ensures
        key_plan(combo) is Ok <==> combo.len() > 0 && forall|i: int|
            0 <= i < combo.len() ==> {
                let c = #[trigger] combo[i];
                ('A' <= c <= 'Z') || ('a' <= c <= 'z') || ('0' <= c <= '9') || c == '_' || c == '+'
            },
        key_plan(combo) is Ok ==> {
            let p = key_plan(combo)->Ok_0;
            &&& p.tool == "key_combo"@
            &&& p.kind == ActionKind::Key
            &&& p.lookup == Lookup::Focused
            &&& p.combo == Some(combo)
            &&& p.commands.len() == 1
            &&& p.commands[0].args == seq!["key"@, "--clearmodifiers"@, combo]
            &&& p.report == (ReportView::Pressed { combo })
        },
{
    assert(combo_error(combo) is None <==> key_plan(combo) is Ok);
}

/// Scrolling presses the button of its direction as often as asked, between once and
/// fifty times, three times where nothing is asked; an unknown direction is refused.
pub proof fn scrolling_is_bounded(direction: Seq<char>, amount: Option<u32>)
    ensures
        ({
            let number = if direction == "up"@ {
                Some("4"@)
            } else if direction == "down"@ {
                Some("5"@)
            } else if direction == "left"@ {
                Some("6"@)
            } else if direction == "right"@ {
                Some("7"@)
            } else {
                None
            };
            let asked: u32 = match amount {
                Some(n) => n,
                None => 3,
            };
            let n: u32 = if asked == 0 {
                1
            } else if asked <= 50 {
                asked
            } else {
                50
            };
            &&& scroll_plan(direction, amount) is Ok <==> number is Some
            &&& scroll_plan(direction, amount) is Ok ==> {
                let p = scroll_plan(direction, amount)->Ok_0;
                &&& p.tool == "scroll"@
                &&& p.kind == ActionKind::Scroll
                &&& p.commands.len() == 1
                &&& p.commands[0].args == seq!["click"@, "--repeat"@, dec(n as nat), number->0]
                &&& p.report == (ReportView::Scrolled { direction, amount: n })
            }
        }),
{
}

/// A window is looked for by the text that was given, without the white space around
/// it; an empty text and one of more than 256 bytes are refused.
pub proof fn a_window_is_looked_for_by_its_name(raw: Seq<char>)
    ensures
        focus_plan(raw) is Ok <==> 0 < trim(raw).len() && byte_len(trim(raw)) <= 256,
        focus_plan(raw) is Ok ==> {
            let p = focus_plan(raw)->Ok_0;
            &&& p.tool == "focus_window"@
            &&& p.kind == ActionKind::FocusWindow
            &&& p.lookup == Lookup::Nothing
            &&& p.commands.len() == 1
            &&& p.commands[0].args == seq![
                "search"@,
                "--name"@,
                trim(raw),
                "windowactivate"@,
                "%1"@,
            ]
            &&& p.report == (ReportView::Focused { query: trim(raw) })
        },
{
}

/// A preview begins with what the action does and ends with the window that it goes
/// to, where that is known.
pub proof fn a_preview_names_the_window(p: PlanView, class: Seq<char>)
    ensures
        full_preview(p, None) == p.preview,
        full_preview(p, Some(class)) == p.preview + p.joint + class,
{
}

/// A line that begins in a way tells what follows; the first such line counts.
pub proof fn the_first_line_of_its_kind_counts(ls: Seq<Seq<char>>, prefix: Seq<char>)
    ensures
        match first_after(ls, prefix) {
            Some(s) => exists|i: int|
                0 <= i < ls.len() && starts_with(#[trigger] ls[i], prefix) && s == ls[i].skip(
                    prefix.len() as int,
                ) && forall|j: int| 0 <= j < i ==> !starts_with(#[trigger] ls[j], prefix),
            None => forall|j: int| 0 <= j < ls.len() ==> !starts_with(#[trigger] ls[j], prefix),
        },
    decreases ls.len(),
{
    if ls.len() > 0 && !starts_with(ls[0], prefix) {
        let rest = ls.drop_first();
        the_first_line_of_its_kind_counts(rest, prefix);
        match first_after(rest, prefix) {
            Some(s) => {
                let i = choose|i: int|
                    0 <= i < rest.len() && starts_with(#[trigger] rest[i], prefix) && s
                        == rest[i].skip(prefix.len() as int) && forall|j: int|
                        0 <= j < i ==> !starts_with(#[trigger] rest[j], prefix);
                assert(ls[i + 1] == rest[i]);
                assert forall|j: int| 0 <= j < i + 1 implies !starts_with(
                    #[trigger] ls[j],
                    prefix,
                ) by {
                    if j > 0 {
                        assert(rest[j - 1] == ls[j]);
                    }
                }
            },
            None => {
                assert forall|j: int| 0 <= j < ls.len() implies !starts_with(
                    #[trigger] ls[j],
                    prefix,
                ) by {
                    if j > 0 {
                        assert(rest[j - 1] == ls[j]);
                    }
                }
            },
        }
    }
}

/// Where the pointer is: the last line for each coordinate gives it, zero where it is
/// no number; the last line for the window names it; other lines say nothing.
pub proof fn the_last_line_for_a_coordinate_counts(ls: Seq<Seq<char>>, s: Seq<char>)
    ensures
        ({
            let m = mouse_lines(ls);
            let n = match read_int(trim(s)) {
                Some(n) => n,
                None => 0,
            };
            let x = mouse_lines(ls.push("X="@ + s));
            let y = mouse_lines(ls.push("Y="@ + s));
            let w = mouse_lines(ls.push("WINDOW="@ + s));
            &&& x.x == n && x.y == m.y && x.window == m.window
            &&& y.y == n && y.x == m.x && y.window == m.window
            &&& w.window == Some(trim(s)) && w.x == m.x && w.y == m.y
            &&& !starts_with(s, "X="@) && !starts_with(s, "Y="@) && !starts_with(s, "WINDOW="@)
                ==> mouse_lines(ls.push(s)) == m
        }),
{
    reveal_strlit("X=");
    reveal_strlit("Y=");
    reveal_strlit("WINDOW=");
    assert(ls.push("X="@ + s).drop_last() =~= ls);
    assert(ls.push("Y="@ + s).drop_last() =~= ls);
    assert(ls.push("WINDOW="@ + s).drop_last() =~= ls);
    assert(ls.push(s).drop_last() =~= ls);
    let x = "X="@ + s;
    let y = "Y="@ + s;
    let w = "WINDOW="@ + s;
    assert(x.subrange(0, 2) =~= "X="@);
    assert(x.skip(2) =~= s);
    assert(y.subrange(0, 2) =~= "Y="@);
    assert(y.subrange(0, 2)[0] != "X="@[0]);
    assert(y.skip(2) =~= s);
    assert(w.subrange(0, 7) =~= "WINDOW="@);
    assert(w.subrange(0, 2)[0] == 'W');
    assert(w.skip(7) =~= s);
}

/// An action goes on after approval alone; every other outcome is told.
pub proof fn only_approval_clears_an_action(tool: Seq<char>, o: GateOutcome)
    ensures
        gate_error(tool, o) is None <==> o is Allowed,
        o is Denied ==> gate_error(tool, o) == Some("user denied "@ + tool),
        o is Timeout ==> gate_error(tool, o) == Some("no confirmation in 30s"@),
{
}

/// A report says what was done and, where it matters, over which window.
pub proof fn a_report_says_what_was_done(
    x: u32,
    y: u32,
    s: Seq<char>,
    double: bool,
    n: u32,
    chars: u64,
    class: Option<Seq<char>>,
)
    ensures
        ({
            let over = match class {
                Some(c) => JVal::Str(c),
                None => JVal::Null,
            };
            let at = seq!['('] + dec(x as nat) + seq![',', ' '] + dec(y as nat) + seq![')'];
            let click = report_json(ReportView::Click { x, y, button: s, double }, class);
            let typed = report_json(ReportView::Typed { chars }, class);
            let pressed = report_json(ReportView::Pressed { combo: s }, class);
            let scrolled = report_json(ReportView::Scrolled { direction: s, amount: n }, class);
            let focused = report_json(ReportView::Focused { query: s }, class);
            &&& click->Obj_0 == seq![
                ("clicked"@, JVal::Str(at)),
                ("over"@, over),
                ("button"@, JVal::Str(s)),
                ("double"@, JVal::Bool(double)),
            ]
            &&& typed->Obj_0 == seq![("typed_chars"@, JVal::UInt(chars)), ("over"@, over)]
            &&& pressed->Obj_0 == seq![("combo"@, JVal::Str(s)), ("over"@, over)]
            &&& scrolled->Obj_0 == seq![
                ("direction"@, JVal::Str(s)),
                ("amount"@, JVal::UInt(n as u64)),
            ]
            &&& focused->Obj_0 == seq![("focused"@, JVal::Str(s))]
        }),
{
    reveal_strlit("(");
    reveal_strlit(", ");
    reveal_strlit(")");
    let over = match class {
        Some(c) => JVal::Str(c),
        None => JVal::Null,
    };
    let at = seq!['('] + dec(x as nat) + seq![',', ' '] + dec(y as nat) + seq![')'];
    assert(crate::tools::computer::place(x, y) =~= at);
    assert(report_json(ReportView::Click { x, y, button: s, double }, class)->Obj_0 =~= seq![
        ("clicked"@, JVal::Str(at)),
        ("over"@, over),
        ("button"@, JVal::Str(s)),
        ("double"@, JVal::Bool(double)),
    ]);
    assert(report_json(ReportView::Typed { chars }, class)->Obj_0 =~= seq![
        ("typed_chars"@, JVal::UInt(chars)),
        ("over"@, over),
    ]);
    assert(report_json(ReportView::Pressed { combo: s }, class)->Obj_0 =~= seq![
        ("combo"@, JVal::Str(s)),
        ("over"@, over),
    ]);
    assert(report_json(ReportView::Scrolled { direction: s, amount: n }, class)->Obj_0 =~= seq![
        ("direction"@, JVal::Str(s)),
        ("amount"@, JVal::UInt(n as u64)),
    ]);
    assert(report_json(ReportView::Focused { query: s }, class)->Obj_0 =~= seq![
        ("focused"@, JVal::Str(s)),
    ]);
}

/// The keys and windows that are harmless unless others are listed.
pub proof fn navigation_is_harmless()
    ensures
        navigation_keys() == seq![
            "Escape"@,
            "Return"@,
            "Tab"@,
            "alt+Tab"@,
            "super+a"@,
            "super+s"@,
            "Page_Down"@,
            "Page_Up"@,
            "Home"@,
            "End"@,
        ],
        typing_apps() == seq![
            "kitty"@,
            "Alacritty"@,
            "VSCode"@,
            "Code"@,
            "obsidian"@,
            "Obsidian"@,
        ],
{
}

/// The class of a window is what a program that succeeded said, where it said something.
pub proof fn a_program_that_failed_says_nothing(stdout: Seq<char>)
    ensures
        said(false, stdout) is None,
        trim(stdout).len() > 0 ==> said(true, stdout) == Some(trim(stdout)),
        trim(stdout).len() == 0 ==> said(true, stdout) is None,
{
}

/// A failed command is told by its label and by what it complained of.
pub proof fn a_failed_command_is_told(c: CommandView, stdout: Seq<char>, stderr: Seq<char>)
    ensures
        !c.show_stdout ==> command_error(c, stdout, stderr) == "xdotool "@ + c.label + ": "@ + trim(
            stderr,
        ),
        c.show_stdout ==> command_error(c, stdout, stderr) == "xdotool "@ + c.label + ": "@ + (trim(
            stdout,
        ) + " "@ + trim(stderr)),
{
}

} // verus!
