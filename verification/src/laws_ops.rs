//! What single operations are for: the commands of the launcher, the
//! analysis setting, the edits that the panel may not make, the keys that
//! shortcuts accept and the palette roles of the terminal.
use vstd::prelude::*;
use crate::command::{CommandView, command_spec};
use crate::mutation::{MutateFault, mutation_fault};
use crate::records::{id_index, lemma_id_index};
use crate::value::Node;
use crate::workflow::ai_next_spec;
use crate::theme::{derived_role, pair_get, role_names};

verus! {

/// The record at `i` is the first one with id `id`.
pub open spec fn first_with_id(s: Seq<Node>, i: int, id: i64) -> bool {
    &&& 0 <= i < s.len()
    &&& s[i].int_at("id"@) == Some(id)
    &&& forall|j: int| 0 <= j < i ==> (#[trigger] s[j]).int_at("id"@) != Some(id)
}

/// A request that names the positive entry id `id`.
pub open spec fn names_entry(req: Node, id: i64) -> bool {
    req.int_at("entryId"@) == Some(id) && id > 0
}

/// A status of a note whose dictation is still running.
pub open spec fn still_dictated(e: Node) -> bool {
    e.str_at("status"@) == Some("recording"@) || e.str_at("status"@) == Some("transcribing"@)
}

proof fn lemma_first_with_id(s: Seq<Node>, i: int, id: i64)
    requires
        first_with_id(s, i, id),
    ensures
        id_index(s, id) == i,
        crate::records::entry_with_id(s, id) == Some(s[i]),
{
    lemma_id_index(s, id);
    if id_index(s, id) < i {
        assert(crate::records::has_id(s[id_index(s, id)], id));
    }
    if id_index(s, id) > i {
        assert(!crate::records::has_id(s[i], id));
    }
}

/// A note that is still being recorded or transcribed cannot be edited:
/// the edit is refused as busy (and `mutate_entries` then leaves the records
/// as they were).
pub proof fn law_no_edit_while_dictating(req: Node, s: Seq<Node>, i: int, id: i64)
    requires
        names_entry(req, id),
        req.str_at("text"@) is Some,
        first_with_id(s, i, id),
        still_dictated(s[i]),
    ensures
        mutation_fault("edit"@, req, s) == Some(MutateFault::BusyEdit),
{
    lemma_first_with_id(s, i, id);
    reveal_strlit("edit");
    reveal_strlit("note");
    assert("edit"@ != "note"@) by {
        assert("edit"@[0] != "note"@[0]);
    }
}

/// A note that is still being recorded or transcribed cannot be deleted.
pub proof fn law_no_delete_while_dictating(req: Node, s: Seq<Node>, i: int, id: i64)
    requires
        names_entry(req, id),
        first_with_id(s, i, id),
        s[i].str_at("kind"@) != Some("section"@),
        still_dictated(s[i]),
    ensures
        mutation_fault("delete-note"@, req, s) == Some(MutateFault::BusyDelete),
{
    lemma_first_with_id(s, i, id);
    reveal_strlit("delete-note");
    reveal_strlit("delete-section");
    reveal_strlit("note");
    reveal_strlit("edit");
    assert("delete-note"@.len() != "delete-section"@.len());
}

/// A note whose analysis is pending cannot be deleted.
pub proof fn law_no_delete_while_analyzing(req: Node, s: Seq<Node>, i: int, id: i64)
    requires
        names_entry(req, id),
        first_with_id(s, i, id),
        s[i].str_at("kind"@) != Some("section"@),
        !still_dictated(s[i]),
        s[i].str_at("context_status"@) == Some("pending"@),
    ensures
        mutation_fault("delete-note"@, req, s) == Some(MutateFault::AnalysisPending),
{
    lemma_first_with_id(s, i, id);
    reveal_strlit("delete-note");
    reveal_strlit("delete-section");
    reveal_strlit("note");
    reveal_strlit("edit");
    assert("delete-note"@.len() != "delete-section"@.len());
}

/// Sections and notes are deleted by their own commands only.
pub proof fn law_deletes_keep_their_kind(req: Node, s: Seq<Node>, i: int, id: i64)
    requires
        names_entry(req, id),
        first_with_id(s, i, id),
    ensures
        s[i].str_at("kind"@) == Some("section"@) ==> mutation_fault("delete-note"@, req, s)
            == Some(MutateFault::SectionNote),
        s[i].str_at("kind"@) != Some("section"@) ==> mutation_fault("delete-section"@, req, s)
            == Some(MutateFault::NotSection),
{
    lemma_first_with_id(s, i, id);
    reveal_strlit("delete-note");
    reveal_strlit("delete-section");
    reveal_strlit("note");
    reveal_strlit("edit");
    assert("delete-note"@.len() != "delete-section"@.len());
}

/// `ai on` turns analysis on and `ai off` turns it off, whatever it was;
/// `ai toggle` flips it and a bare `ai` leaves it.
pub proof fn law_ai_setting(current: bool, arg: Option<Seq<char>>)
    ensures
        arg == Some("on"@) ==> ai_next_spec(current, arg),
        arg == Some("off"@) ==> !ai_next_spec(current, arg),
        arg == Some("toggle"@) ==> ai_next_spec(current, arg) == !current,
        arg is None ==> ai_next_spec(current, arg) == current,
{
    reveal_strlit("on");
    reveal_strlit("off");
    reveal_strlit("toggle");
    assert("on"@.len() != "toggle"@.len());
    assert("off"@.len() != "toggle"@.len());
    assert("off"@.len() != "on"@.len());
}

} // verus!

verus! {

/// `omatate` alone or `omatate open` opens the panel, and nothing else does.
pub proof fn law_command_open(a: Seq<Seq<char>>)
    ensures
        (command_spec(a) == CommandView::Open) <==> (a.len() == 0 || a == seq!["open"@]),
{
    reveal_strlit("--help");
    reveal_strlit("-h");
    reveal_strlit("ai");
    reveal_strlit("backend");
    reveal_strlit("clip");
    reveal_strlit("focus-toggle");
    reveal_strlit("help");
    reveal_strlit("open");
    reveal_strlit("projects");
    reveal_strlit("render");
    reveal_strlit("section");
    reveal_strlit("start");
    reveal_strlit("status");
    reveal_strlit("stop");
    reveal_strlit("toggle");
    if a == seq!["open"@] {
        assert(a.len() == 1 && a[0] == "open"@);

    }
    if command_spec(a) == CommandView::Open {
        assert(a =~= seq!["open"@] || a.len() == 0);
    }
}

/// `omatate projects` and nothing else asks for the Projects command.
pub proof fn law_command_projects(a: Seq<Seq<char>>)
    ensures
        (command_spec(a) == CommandView::Projects) <==> (a == seq!["projects"@]),
{
    reveal_strlit("--help");
    reveal_strlit("-h");
    reveal_strlit("ai");
    reveal_strlit("backend");
    reveal_strlit("clip");
    reveal_strlit("focus-toggle");
    reveal_strlit("help");
    reveal_strlit("open");
    reveal_strlit("projects");
    reveal_strlit("render");
    reveal_strlit("section");
    reveal_strlit("start");
    reveal_strlit("status");
    reveal_strlit("stop");
    reveal_strlit("toggle");
    if a == seq!["projects"@] {
        assert(a.len() == 1 && a[0] == "projects"@);
        assert("projects"@.len() != "open"@.len());
        assert("projects"@.len() != "help"@.len());
        assert("projects"@.len() != "-h"@.len());
        assert("projects"@.len() != "--help"@.len());
    }
    if command_spec(a) == CommandView::Projects {
        assert(a =~= seq!["projects"@] || a.len() == 0);
    }
}

/// `omatate backend` and nothing else asks for the Backend command.
pub proof fn law_command_backend(a: Seq<Seq<char>>)
    ensures
        (command_spec(a) == CommandView::Backend) <==> (a == seq!["backend"@]),
{
    reveal_strlit("--help");
    reveal_strlit("-h");
    reveal_strlit("ai");
    reveal_strlit("backend");
    reveal_strlit("clip");
    reveal_strlit("focus-toggle");
    reveal_strlit("help");
    reveal_strlit("open");
    reveal_strlit("projects");
    reveal_strlit("render");
    reveal_strlit("section");
    reveal_strlit("start");
    reveal_strlit("status");
    reveal_strlit("stop");
    reveal_strlit("toggle");
    if a == seq!["backend"@] {
        assert(a.len() == 1 && a[0] == "backend"@);
        assert("backend"@.len() != "open"@.len());
        assert("backend"@.len() != "help"@.len());
        assert("backend"@.len() != "-h"@.len());
        assert("backend"@.len() != "--help"@.len());
        assert("backend"@.len() != "projects"@.len());
    }
    if command_spec(a) == CommandView::Backend {
        assert(a =~= seq!["backend"@] || a.len() == 0);
    }
}

/// `omatate stop` and nothing else asks for the Stop command.
pub proof fn law_command_stop(a: Seq<Seq<char>>)
    ensures
        (command_spec(a) == CommandView::Stop) <==> (a == seq!["stop"@]),
{
    reveal_strlit("--help");
    reveal_strlit("-h");
    reveal_strlit("ai");
    reveal_strlit("backend");
    reveal_strlit("clip");
    reveal_strlit("focus-toggle");
    reveal_strlit("help");
    reveal_strlit("open");
    reveal_strlit("projects");
    reveal_strlit("render");
    reveal_strlit("section");
    reveal_strlit("start");
    reveal_strlit("status");
    reveal_strlit("stop");
    reveal_strlit("toggle");
    if a == seq!["stop"@] {
        assert(a.len() == 1 && a[0] == "stop"@);
        assert("stop"@[0] != "open"@[0]);
        assert("stop"@[0] != "help"@[0]);
        assert("stop"@.len() != "-h"@.len());
        assert("stop"@.len() != "--help"@.len());
        assert("stop"@.len() != "projects"@.len());
        assert("stop"@.len() != "backend"@.len());
        assert("stop"@.len() != "start"@.len());
    }
    if command_spec(a) == CommandView::Stop {
        assert(a =~= seq!["stop"@] || a.len() == 0);
    }
}

/// `omatate focus-toggle` and nothing else asks for the FocusToggle command.
pub proof fn law_command_focus_toggle(a: Seq<Seq<char>>)
    ensures
        (command_spec(a) == CommandView::FocusToggle) <==> (a == seq!["focus-toggle"@]),
{
    reveal_strlit("--help");
    reveal_strlit("-h");
    reveal_strlit("ai");
    reveal_strlit("backend");
    reveal_strlit("clip");
    reveal_strlit("focus-toggle");
    reveal_strlit("help");
    reveal_strlit("open");
    reveal_strlit("projects");
    reveal_strlit("render");
    reveal_strlit("section");
    reveal_strlit("start");
    reveal_strlit("status");
    reveal_strlit("stop");
    reveal_strlit("toggle");
    if a == seq!["focus-toggle"@] {
        assert(a.len() == 1 && a[0] == "focus-toggle"@);
        assert("focus-toggle"@.len() != "open"@.len());
        assert("focus-toggle"@.len() != "help"@.len());
        assert("focus-toggle"@.len() != "-h"@.len());
        assert("focus-toggle"@.len() != "--help"@.len());
        assert("focus-toggle"@.len() != "projects"@.len());
        assert("focus-toggle"@.len() != "backend"@.len());
        assert("focus-toggle"@.len() != "start"@.len());
        assert("focus-toggle"@.len() != "stop"@.len());
    }
    if command_spec(a) == CommandView::FocusToggle {
        assert(a =~= seq!["focus-toggle"@] || a.len() == 0);
    }
}

/// `omatate toggle` and nothing else asks for the Toggle command.
pub proof fn law_command_toggle(a: Seq<Seq<char>>)
    ensures
        (command_spec(a) == CommandView::Toggle) <==> (a == seq!["toggle"@]),
{
    reveal_strlit("--help");
    reveal_strlit("-h");
    reveal_strlit("ai");
    reveal_strlit("backend");
    reveal_strlit("clip");
    reveal_strlit("focus-toggle");
    reveal_strlit("help");
    reveal_strlit("open");
    reveal_strlit("projects");
    reveal_strlit("render");
    reveal_strlit("section");
    reveal_strlit("start");
    reveal_strlit("status");
    reveal_strlit("stop");
    reveal_strlit("toggle");
    if a == seq!["toggle"@] {
        assert(a.len() == 1 && a[0] == "toggle"@);
        assert("toggle"@.len() != "open"@.len());
        assert("toggle"@.len() != "help"@.len());
        assert("toggle"@.len() != "-h"@.len());
        assert("toggle"@[0] != "--help"@[0]);
        assert("toggle"@.len() != "projects"@.len());
        assert("toggle"@.len() != "backend"@.len());
        assert("toggle"@.len() != "start"@.len());
        assert("toggle"@.len() != "stop"@.len());
        assert("toggle"@.len() != "focus-toggle"@.len());
    }
    if command_spec(a) == CommandView::Toggle {
        assert(a =~= seq!["toggle"@] || a.len() == 0);
    }
}

/// `omatate status` and nothing else asks for the Status command.
pub proof fn law_command_status(a: Seq<Seq<char>>)
    ensures
        (command_spec(a) == CommandView::Status) <==> (a == seq!["status"@]),
{
    reveal_strlit("--help");
    reveal_strlit("-h");
    reveal_strlit("ai");
    reveal_strlit("backend");
    reveal_strlit("clip");
    reveal_strlit("focus-toggle");
    reveal_strlit("help");
    reveal_strlit("open");
    reveal_strlit("projects");
    reveal_strlit("render");
    reveal_strlit("section");
    reveal_strlit("start");
    reveal_strlit("status");
    reveal_strlit("stop");
    reveal_strlit("toggle");
    if a == seq!["status"@] {
        assert(a.len() == 1 && a[0] == "status"@);
        assert("status"@.len() != "open"@.len());
        assert("status"@.len() != "help"@.len());
        assert("status"@.len() != "-h"@.len());
        assert("status"@[0] != "--help"@[0]);
        assert("status"@.len() != "projects"@.len());
        assert("status"@.len() != "backend"@.len());
        assert("status"@.len() != "start"@.len());
        assert("status"@.len() != "stop"@.len());
        assert("status"@.len() != "focus-toggle"@.len());
        assert("status"@[0] != "toggle"@[0]);
    }
    if command_spec(a) == CommandView::Status {
        assert(a =~= seq!["status"@] || a.len() == 0);
    }
}

/// `omatate render` and nothing else asks for the Render command.
pub proof fn law_command_render(a: Seq<Seq<char>>)
    ensures
        (command_spec(a) == CommandView::Render) <==> (a == seq!["render"@]),
{
    reveal_strlit("--help");
    reveal_strlit("-h");
    reveal_strlit("ai");
    reveal_strlit("backend");
    reveal_strlit("clip");
    reveal_strlit("focus-toggle");
    reveal_strlit("help");
    reveal_strlit("open");
    reveal_strlit("projects");
    reveal_strlit("render");
    reveal_strlit("section");
    reveal_strlit("start");
    reveal_strlit("status");
    reveal_strlit("stop");
    reveal_strlit("toggle");
    if a == seq!["render"@] {
        assert(a.len() == 1 && a[0] == "render"@);
        assert("render"@.len() != "open"@.len());
        assert("render"@.len() != "help"@.len());
        assert("render"@.len() != "-h"@.len());
        assert("render"@[0] != "--help"@[0]);
        assert("render"@.len() != "projects"@.len());
        assert("render"@.len() != "backend"@.len());
        assert("render"@.len() != "start"@.len());
        assert("render"@.len() != "stop"@.len());
        assert("render"@.len() != "focus-toggle"@.len());
        assert("render"@[0] != "toggle"@[0]);
        assert("render"@[0] != "status"@[0]);
    }
    if command_spec(a) == CommandView::Render {
        assert(a =~= seq!["render"@] || a.len() == 0);
    }
}

/// `omatate clip` and nothing else asks for the Clip command.
pub proof fn law_command_clip(a: Seq<Seq<char>>)
    ensures
        (command_spec(a) == CommandView::Clip) <==> (a == seq!["clip"@]),
{
    reveal_strlit("--help");
    reveal_strlit("-h");
    reveal_strlit("ai");
    reveal_strlit("backend");
    reveal_strlit("clip");
    reveal_strlit("focus-toggle");
    reveal_strlit("help");
    reveal_strlit("open");
    reveal_strlit("projects");
    reveal_strlit("render");
    reveal_strlit("section");
    reveal_strlit("start");
    reveal_strlit("status");
    reveal_strlit("stop");
    reveal_strlit("toggle");
    if a == seq!["clip"@] {
        assert(a.len() == 1 && a[0] == "clip"@);
        assert("clip"@[0] != "open"@[0]);
        assert("clip"@[0] != "help"@[0]);
        assert("clip"@.len() != "-h"@.len());
        assert("clip"@.len() != "--help"@.len());
        assert("clip"@.len() != "projects"@.len());
        assert("clip"@.len() != "backend"@.len());
        assert("clip"@.len() != "start"@.len());
        assert("clip"@[0] != "stop"@[0]);
        assert("clip"@.len() != "focus-toggle"@.len());
        assert("clip"@.len() != "toggle"@.len());
        assert("clip"@.len() != "status"@.len());
        assert("clip"@.len() != "render"@.len());
    }
    if command_spec(a) == CommandView::Clip {
        assert(a =~= seq!["clip"@] || a.len() == 0);
    }
}

/// `omatate help`, `-h` or `--help` and nothing else asks for the usage text.
pub proof fn law_command_help(a: Seq<Seq<char>>)
    ensures
        (command_spec(a) == CommandView::Help) <==> (a == seq!["help"@] || a == seq!["-h"@] || a
            == seq!["--help"@]),
{
    reveal_strlit("open");
    reveal_strlit("help");
    reveal_strlit("-h");
    reveal_strlit("--help");
    if a == seq!["help"@] || a == seq!["-h"@] || a == seq!["--help"@] {
        assert(a.len() == 1);
        assert("help"@[0] != "open"@[0]);
        assert("-h"@.len() != "open"@.len());
        assert("--help"@.len() != "open"@.len());
    }
    if command_spec(a) == CommandView::Help {
        assert(a =~= seq![a[0]]);
    }
}

/// `omatate ptt start` and `omatate ptt stop`, and nothing else, press and
/// release push-to-talk.
pub proof fn law_command_ptt(a: Seq<Seq<char>>)
    ensures
        (command_spec(a) == CommandView::PttStart) <==> (a == seq!["ptt"@, "start"@]),
        (command_spec(a) == CommandView::PttStop) <==> (a == seq!["ptt"@, "stop"@]),
{
    reveal_strlit("ptt");
    reveal_strlit("start");
    reveal_strlit("stop");
    reveal_strlit("open-project");
    reveal_strlit("resume");
    reveal_strlit("section");
    reveal_strlit("ai");
    if a.len() == 2 && a[0] == "ptt"@ {
        assert("ptt"@.len() != "start"@.len());
        assert("ptt"@.len() != "open-project"@.len());
        assert("ptt"@.len() != "resume"@.len());
        assert("ptt"@.len() != "section"@.len());
        assert("ptt"@.len() != "ai"@.len());
        assert("start"@.len() != "stop"@.len());
    }
    if command_spec(a) == CommandView::PttStart {
        assert(a =~= seq!["ptt"@, "start"@]);
    }
    if command_spec(a) == CommandView::PttStop {
        assert(a =~= seq!["ptt"@, "stop"@]);
    }
}

} // verus!

verus! {

/// `#RGB`, `#RRGGBB` or `#RRGGBBAA` in hexadecimal digits.
pub open spec fn hex_color(c: Seq<char>) -> bool {
    &&& (c.len() == 4 || c.len() == 7 || c.len() == 9)
    &&& c[0] == '#'
    &&& forall|i: int|
        1 <= i < c.len() ==> ('0' <= #[trigger] c[i] <= '9') || ('a' <= c[i] <= 'f') || ('A'
            <= c[i] <= 'F')
}

proof fn lemma_trim_plain(s: Seq<char>)
    requires
        s.len() > 0,
        !crate::text::is_ws(s[0]),
        !crate::text::is_ws(s.last()),
    ensures
        crate::text::trim(s) == s,
{
}

/// The first `c` of `s` is at `k`.
proof fn lemma_first_char_at(s: Seq<char>, c: char, k: int)
    requires
        0 <= k < s.len(),
        s[k] == c,
        forall|j: int| 0 <= j < k ==> s[j] != c,
    ensures
        crate::text::find_char(s, c) == k,
{
    crate::text::lemma_find_char(s, c);
    let f = crate::text::find_char(s, c);
    if f < k {
        assert(s[f] == c);
    }
}

/// What one terminal line `palette = D=COLOR` assigns, through the palette
/// roles of index `D`.
proof fn lemma_palette_line(d: char, c: Seq<char>)
    requires
        '0' <= d <= '9',
        hex_color(c),
    ensures
        crate::theme::palette_of(crate::text::lines("palette = "@ + seq![d, '='] + c))
            == crate::theme::palette_roles(seq![d]).map_values(|r: Seq<char>| (r, c)),
{
    reveal_strlit("palette = ");
    reveal_strlit("palette");
    let t = "palette = "@ + seq![d, '='] + c;
    assert(t.len() == 12 + c.len());
    assert forall|j: int| 0 <= j < t.len() implies t[j] != '\n' by {
        if j >= 12 {
            assert(t[j] == c[j - 12]);
        }
    }
    crate::text::lemma_find_char(t, '\n');
    if crate::text::find_char(t, '\n') < t.len() {
        assert(t[crate::text::find_char(t, '\n')] == '\n');
    }
    assert(crate::text::split_on(t, '\n') == seq![t]);
    assert(crate::text::lines(t) =~= seq![t]);
    assert(seq![t].drop_last() =~= Seq::<Seq<char>>::empty());
    assert(crate::theme::palette_of(Seq::<Seq<char>>::empty()) =~= Seq::<(Seq<char>, Seq<char>)>::empty());
    assert(seq![t].last() == t);
    assert(crate::theme::palette_of(seq![t]) =~= crate::theme::palette_of(
        Seq::<Seq<char>>::empty(),
    ) + crate::theme::palette_line(t));
    assert(crate::theme::palette_of(seq![t]) =~= crate::theme::palette_line(t));
    lemma_first_char_at(t, '=', 8);
    let k = t.take(8);
    let v = t.skip(9);
    assert(k =~= "palette"@.push(' '));
    assert(crate::text::trim(k) =~= "palette"@) by {
        assert(k.drop_last() =~= "palette"@);
        lemma_trim_plain("palette"@);
    }
    let w = seq![d, '='] + c;
    assert(v =~= seq![' '] + w);
    assert(crate::text::trim(v) =~= w) by {
        assert(v.drop_first() =~= w);
        assert(v.last() == c.last());
        assert(c.last() == c[c.len() - 1]);
        lemma_trim_plain(w);
        assert(crate::text::trim_start(v) == crate::text::trim_start(w));
    }
    lemma_first_char_at(w, '=', 1);
    assert(w.take(1) =~= seq![d]);
    assert(w.skip(2) =~= c);
    lemma_trim_plain(seq![d]);
    assert(c.last() == c[c.len() - 1]);
    lemma_trim_plain(c);
    assert(crate::theme::valid_color_spec(c));
}

/// Terminal palette index 1 sets the red role, 2 green, 3 yellow, 4 blue and
/// the accent, 8 the muted and dark foreground roles, each to the line's
/// color and no other role; other indices set nothing.
pub proof fn law_palette_index_roles(d: char, c: Seq<char>)
    requires
        '0' <= d <= '9',
        hex_color(c),
    ensures
        ({
            let set = crate::theme::palette_of(
                crate::text::lines("palette = "@ + seq![d, '='] + c),
            );
            &&& d == '1' ==> set == seq![("red"@, c)]
            &&& d == '2' ==> set == seq![("green"@, c)]
            &&& d == '3' ==> set == seq![("yellow"@, c)]
            &&& d == '4' ==> set == seq![("blue"@, c), ("accent"@, c)]
            &&& d == '8' ==> set == seq![("muted"@, c), ("dark_foreground"@, c)]
            &&& (d == '0' || d == '5' || d == '6' || d == '7' || d == '9') ==> set.len() == 0
        }),
{
    lemma_palette_line(d, c);
    reveal_strlit("1");
    reveal_strlit("2");
    reveal_strlit("3");
    reveal_strlit("4");
    reveal_strlit("8");
    let r = crate::theme::palette_roles(seq![d]);
    if d == '1' {
        assert(seq![d] =~= "1"@);
    } else {
        assert(seq![d][0] != "1"@[0]);
    }
    if d == '2' {
        assert(seq![d] =~= "2"@);
    } else {
        assert(seq![d][0] != "2"@[0]);
    }
    if d == '3' {
        assert(seq![d] =~= "3"@);
    } else {
        assert(seq![d][0] != "3"@[0]);
    }
    if d == '4' {
        assert(seq![d] =~= "4"@);
    } else {
        assert(seq![d][0] != "4"@[0]);
    }
    if d == '8' {
        assert(seq![d] =~= "8"@);
    } else {
        assert(seq![d][0] != "8"@[0]);
    }
    assert(r.map_values(|x: Seq<char>| (x, c)) =~= crate::theme::palette_of(
        crate::text::lines("palette = "@ + seq![d, '='] + c),
    ));
}

} // verus!

verus! {

/// The twelve palette roles of a theme that sets only some colors: each
/// role takes the theme's own color; else, in order, the colors it stands in
/// for (the accent falls back to blue, cyan, green; red to bright red, then
/// the accent; and so on); else the foreground. The three background shades
/// are left to be mixed from the background when the theme lacks them.
pub proof fn law_palette_role_fallbacks(d: Seq<(Seq<char>, Seq<char>)>)
    ensures
        role_names()[0] == "background"@ && derived_role(d, 0) == (match pair_get(d, "background"@) { Some(v) => Some(v), None => pair_get(d, "foreground"@) }),
        role_names()[1] == "dark_background"@ && derived_role(d, 1) == (pair_get(d, "dark_background"@)),
        role_names()[2] == "darker_background"@ && derived_role(d, 2) == (pair_get(d, "darker_background"@)),
        role_names()[3] == "lighter_background"@ && derived_role(d, 3) == (pair_get(d, "lighter_background"@)),
        role_names()[4] == "foreground"@ && derived_role(d, 4) == (match pair_get(d, "foreground"@) { Some(v) => Some(v), None => pair_get(d, "foreground"@) }),
        role_names()[5] == "dark_foreground"@ && derived_role(d, 5) == (match pair_get(d, "dark_foreground"@) { Some(v) => Some(v), None => match pair_get(d, "light_foreground"@) { Some(v) => Some(v), None => match pair_get(d, "muted"@) { Some(v) => Some(v), None => match pair_get(d, "foreground"@) { Some(v) => Some(v), None => pair_get(d, "foreground"@) } } } }),
        role_names()[6] == "muted"@ && derived_role(d, 6) == (match pair_get(d, "muted"@) { Some(v) => Some(v), None => match pair_get(d, "light_foreground"@) { Some(v) => Some(v), None => match pair_get(d, "dark_foreground"@) { Some(v) => Some(v), None => match pair_get(d, "foreground"@) { Some(v) => Some(v), None => pair_get(d, "foreground"@) } } } }),
        role_names()[7] == "accent"@ && derived_role(d, 7) == (match pair_get(d, "accent"@) { Some(v) => Some(v), None => match pair_get(d, "blue"@) { Some(v) => Some(v), None => match pair_get(d, "cyan"@) { Some(v) => Some(v), None => match pair_get(d, "green"@) { Some(v) => Some(v), None => match pair_get(d, "foreground"@) { Some(v) => Some(v), None => pair_get(d, "foreground"@) } } } } }),
        role_names()[8] == "red"@ && derived_role(d, 8) == (match pair_get(d, "red"@) { Some(v) => Some(v), None => match pair_get(d, "bright_red"@) { Some(v) => Some(v), None => match pair_get(d, "accent"@) { Some(v) => Some(v), None => match pair_get(d, "foreground"@) { Some(v) => Some(v), None => pair_get(d, "foreground"@) } } } }),
        role_names()[9] == "yellow"@ && derived_role(d, 9) == (match pair_get(d, "yellow"@) { Some(v) => Some(v), None => match pair_get(d, "bright_yellow"@) { Some(v) => Some(v), None => match pair_get(d, "orange"@) { Some(v) => Some(v), None => match pair_get(d, "accent"@) { Some(v) => Some(v), None => match pair_get(d, "foreground"@) { Some(v) => Some(v), None => pair_get(d, "foreground"@) } } } } }),
        role_names()[10] == "green"@ && derived_role(d, 10) == (match pair_get(d, "green"@) { Some(v) => Some(v), None => match pair_get(d, "bright_green"@) { Some(v) => Some(v), None => match pair_get(d, "cyan"@) { Some(v) => Some(v), None => match pair_get(d, "accent"@) { Some(v) => Some(v), None => match pair_get(d, "foreground"@) { Some(v) => Some(v), None => pair_get(d, "foreground"@) } } } } }),
        role_names()[11] == "blue"@ && derived_role(d, 11) == (match pair_get(d, "blue"@) { Some(v) => Some(v), None => match pair_get(d, "bright_blue"@) { Some(v) => Some(v), None => match pair_get(d, "cyan"@) { Some(v) => Some(v), None => match pair_get(d, "accent"@) { Some(v) => Some(v), None => match pair_get(d, "foreground"@) { Some(v) => Some(v), None => pair_get(d, "foreground"@) } } } } }),
{
    reveal_with_fuel(crate::theme::first_present, 5);
}

} // verus!

verus! {

/// Waiting for a transcript: a transcript found while the recorder is idle
/// ends the wait with success; an idle recorder without a transcript is
/// given up on once it has been idle for 1.5 s and the wait has lasted 3 s;
/// otherwise the wait ends only after two minutes.
pub proof fn law_ingest_steps(has_text: bool, idle: bool, idle_ms: u64, elapsed_ms: u64)
    ensures
        ({
            let r = crate::workflow::ingest_spec(has_text, idle, idle_ms, elapsed_ms);
            &&& has_text && idle ==> r == crate::workflow::IngestStep::Success
            &&& idle && !has_text && idle_ms >= 1500 && elapsed_ms >= 3000 ==> r
                == crate::workflow::IngestStep::IdleWithoutTranscript
            &&& !(has_text && idle) && !(idle && idle_ms >= 1500 && elapsed_ms >= 3000)
                && elapsed_ms >= 120000 ==> r == crate::workflow::IngestStep::Timeout
            &&& !(has_text && idle) && !(idle && idle_ms >= 1500 && elapsed_ms >= 3000)
                && elapsed_ms < 120000 ==> r == crate::workflow::IngestStep::Wait
        }),
{
}

} // verus!
