//! Decisions of the capture, dictation and analysis work: file names, the
//! records they add, and the steps of waiting for a transcript.
use vstd::prelude::*;
use crate::mutation::{str_field, value_field};
use crate::text::{
    chars_of, decimal, parse_digits, plain_number, push_decimal, push_str, slice_chars,
    string_of, trim, trim_chars,
};
use crate::theme::split_once;
use crate::value::{Node, field_set, set_field};

verus! {

/// A note id in at least three digits, as `format!("{:03}")` writes it.
pub open spec fn padded_id_text(id: int) -> Seq<char> {
    if id < 0 {
        let d = decimal((-id) as nat);
        seq!['-'] + (if d.len() < 2 {
            seq!['0'] + d
        } else {
            d
        })
    } else {
        let d = decimal(id as nat);
        if d.len() == 1 {
            seq!['0', '0'] + d
        } else if d.len() == 2 {
            seq!['0'] + d
        } else {
            d
        }
    }
}

/// The id part of per-note file names: `007`, `042`, `123`.
pub fn padded_id(id: i64) -> (r: String)
    ensures
        r@ == padded_id_text(id as int),
{
    let mut d: Vec<char> = Vec::new();
    let negative = id < 0;
    let m: u128 = if negative {
        ((-(id + 1)) as u128) + 1
    } else {
        id as u128
    };
    push_decimal(&mut d, m);
    assert(d@ =~= decimal(m as nat));
    let mut out: Vec<char> = Vec::new();
    if negative {
        out.push('-');
        if d.len() < 2 {
            out.push('0');
        }
    } else if d.len() == 1 {
        out.push('0');
        out.push('0');
    } else if d.len() == 2 {
        out.push('0');
    }
    crate::text::push_chars(&mut out, &d);
    assert(out@ =~= padded_id_text(id as int));
    string_of(&out)
}

pub open spec fn hex_digit(n: nat) -> char {
    if n < 10 {
        ((n + 48) as u32) as char
    } else {
        ((n + 87) as u32) as char
    }
}

/// Each byte in two lowercase hex digits.
pub open spec fn hex_bytes(b: Seq<u8>) -> Seq<char>
    decreases b.len(),
{
    if b.len() == 0 {
        seq![]
    } else {
        hex_bytes(b.drop_last()) + seq![
            hex_digit((b.last() / 16) as nat),
            hex_digit((b.last() % 16) as nat),
        ]
    }
}

fn hex_char(n: u8) -> (c: char)
    requires
        n < 16,
    ensures
        c == hex_digit(n as nat),
{
    if n < 10 {
        (48u8 + n) as char
    } else {
        (87u8 + n) as char
    }
}

/// The identity token in a form that is safe in a file name: the UTF-8 bytes
/// of the trimmed token in lowercase hex.
pub fn token_key(token: &str) -> (r: String)
    ensures
        r@ == hex_bytes(vstd::utf8::encode_utf8(trim(token@))),
{
    let t = string_of(&trim_chars(&chars_of(token)));
    let bytes = t.as_str().as_bytes();
    let mut out: Vec<char> = Vec::new();
    let mut i: usize = 0;
    assert(bytes@.take(0) =~= Seq::<u8>::empty());
    while i < bytes.len()
        invariant
            i <= bytes@.len(),
            out@ == hex_bytes(bytes@.take(i as int)),
        decreases bytes@.len() - i,
    {
        let b = bytes[i];
        out.push(hex_char(b / 16));
        out.push(hex_char(b % 16));
        assert(bytes@.take(i + 1).drop_last() =~= bytes@.take(i as int));
        assert(out@ =~= hex_bytes(bytes@.take(i + 1)));
        i = i + 1;
    }
    assert(bytes@.take(i as int) =~= bytes@);
    string_of(&out)
}

/// A positive `i32` as `str::parse::<i32>` reads it: an optional `+`, digits.
pub open spec fn positive_i32(s: Seq<char>) -> Option<i32> {
    let d = if s.len() > 0 && s[0] == '+' {
        s.drop_first()
    } else {
        s
    };
    match plain_number(d, i32::MAX as nat) {
        Some(n) => if n > 0 {
            Some(n as i32)
        } else {
            None
        },
        None => None,
    }
}

fn positive_i32_of(v: &Vec<char>) -> (r: Option<i32>)
    ensures
        r == positive_i32(v@),
{
    let lo: usize = if v.len() > 0 && v[0] == '+' {
        1
    } else {
        0
    };
    assert(v@.subrange(lo as int, v@.len() as int) =~= (if v@.len() > 0 && v@[0] == '+' {
        v@.drop_first()
    } else {
        v@
    }));
    match parse_digits(v, lo, v.len(), 0x7fff_ffffu64) {
        Some(n) => if n > 0 {
            Some(n as i32)
        } else {
            None
        },
        None => None,
    }
}

/// What the selection tool printed: nothing (the selection was cancelled),
/// or `X,Y WxH` with a positive width and height.
pub open spec fn capture_spec(out: Seq<char>) -> Result<Option<(Seq<char>, i32, i32)>, ()> {
    let region = trim(out);
    if region.len() == 0 {
        Ok(None)
    } else {
        match split_once(region, ' ') {
            Some((_, size)) => match split_once(size, 'x') {
                Some((w, h)) => match (positive_i32(w), positive_i32(h)) {
                    (Some(wv), Some(hv)) => Ok(Some((region, wv, hv))),
                    _ => Err(()),
                },
                None => Err(()),
            },
            None => Err(()),
        }
    }
}

/// The selection tool printed dimensions that are not positive integers.
#[derive(Debug, PartialEq, Eq, Structural)]
pub enum CaptureError {
    InvalidDimensions,
}

impl CaptureError {
    pub fn message(&self) -> (r: String)
        ensures
            r@ == "slurp returned invalid capture dimensions"@,
    {
        String::from_str("slurp returned invalid capture dimensions")
    }
}

fn split_once_vec(v: &Vec<char>, c: char) -> (r: Option<(Vec<char>, Vec<char>)>)
    ensures
        match r {
            Some((a, b)) => split_once(v@, c) == Some((a@, b@)),
            None => split_once(v@, c) is None,
        },
{
    let k = crate::text::find_from(v, 0, c);
    assert(v@.skip(0) =~= v@);
    proof {
        crate::text::lemma_find_char(v@, c);
    }
    if k == v.len() {
        None
    } else {
        let a = slice_chars(v, 0, k);
        let b = slice_chars(v, k + 1, v.len());
        assert(a@ =~= v@.take(k as int));
        assert(b@ =~= v@.skip(k + 1));
        Some((a, b))
    }
}

/// Reads the selection printed by the region picker: the trimmed region and
/// its width and height, or `None` when nothing was selected.
pub fn capture_region(out: &str) -> (r: Result<Option<(String, i32, i32)>, CaptureError>)
    ensures
        match r {
            Ok(None) => capture_spec(out@) == Ok::<Option<(Seq<char>, i32, i32)>, ()>(None),
            Ok(Some((region, w, h))) => capture_spec(out@) == Ok::<
                Option<(Seq<char>, i32, i32)>,
                (),
            >(Some((region@, w, h))),
            Err(_) => capture_spec(out@) is Err,
        },
{
    let region = trim_chars(&chars_of(out));
    if region.len() == 0 {
        return Ok(None);
    }
    let size = match split_once_vec(&region, ' ') {
        Some((_, s)) => s,
        None => return Err(CaptureError::InvalidDimensions),
    };
    let (w, h) = match split_once_vec(&size, 'x') {
        Some(p) => p,
        None => return Err(CaptureError::InvalidDimensions),
    };
    match (positive_i32_of(&w), positive_i32_of(&h)) {
        (Some(wv), Some(hv)) => Ok(Some((string_of(&region), wv, hv))),
        _ => Err(CaptureError::InvalidDimensions),
    }
}

/// The name of a captured clip: `clip-STAMP.png`, then `clip-STAMP-N.png`.
pub open spec fn clip_name_text(stamp: Seq<char>, counter: nat) -> Seq<char> {
    if counter == 0 {
        "clip-"@ + stamp + ".png"@
    } else {
        "clip-"@ + stamp + "-"@ + decimal(counter) + ".png"@
    }
}

/// The file name of the `counter`-th try to store a clip taken at `stamp`.
pub fn clip_name(stamp: &str, counter: u32) -> (r: String)
    ensures
        r@ == clip_name_text(stamp@, counter as nat),
{
    let mut out: Vec<char> = Vec::new();
    push_str(&mut out, "clip-");
    push_str(&mut out, stamp);
    if counter != 0 {
        push_str(&mut out, "-");
        push_decimal(&mut out, counter as u128);
    }
    push_str(&mut out, ".png");
    assert(out@ =~= clip_name_text(stamp@, counter as nat));
    string_of(&out)
}

/// A note that is being recorded: with analysis
/// `{"id", "ts", "status": "recording", "context_status": "pending"}`, without
/// `{"id", "ts", "ai": false, "status": "recording"}`.
pub open spec fn is_recording_record(e: Node, id: i64, ts: Seq<char>, ai: bool) -> bool {
    match e {
        Node::Object(f) => if ai {
            &&& f@.len() == 4
            &&& value_field(f@[0], "id"@, Node::Int(id))
            &&& str_field(f@[1], "ts"@, ts)
            &&& str_field(f@[2], "status"@, "recording"@)
            &&& str_field(f@[3], "context_status"@, "pending"@)
        } else {
            &&& f@.len() == 4
            &&& value_field(f@[0], "id"@, Node::Int(id))
            &&& str_field(f@[1], "ts"@, ts)
            &&& value_field(f@[2], "ai"@, Node::Bool(false))
            &&& str_field(f@[3], "status"@, "recording"@)
        },
        _ => false,
    }
}

/// The record of a note whose dictation starts now.
pub fn recording_record(id: i64, ts: &str, ai: bool) -> (r: Node)
    ensures
        is_recording_record(r, id, ts@, ai),
{
    let mut f: Vec<(String, Node)> = Vec::new();
    f.push((String::from_str("id"), Node::Int(id)));
    f.push((String::from_str("ts"), Node::Str(String::from_str(ts))));
    if ai {
        f.push((String::from_str("status"), Node::Str(String::from_str("recording"))));
        f.push((String::from_str("context_status"), Node::Str(String::from_str("pending"))));
    } else {
        f.push((String::from_str("ai"), Node::Bool(false)));
        f.push((String::from_str("status"), Node::Str(String::from_str("recording"))));
    }
    Node::Object(f)
}

/// A clip note: `{"id", "ts", "ai": false, "status": "done", "transcript": "",
/// "asset", "asset_size": {"width", "height"}}`.
pub open spec fn is_clip_record(e: Node, id: i64, ts: Seq<char>, asset: Seq<char>, w: i32, h: i32) -> bool {
    match e {
        Node::Object(f) => {
            &&& f@.len() == 7
            &&& value_field(f@[0], "id"@, Node::Int(id))
            &&& str_field(f@[1], "ts"@, ts)
            &&& value_field(f@[2], "ai"@, Node::Bool(false))
            &&& str_field(f@[3], "status"@, "done"@)
            &&& str_field(f@[4], "transcript"@, seq![])
            &&& str_field(f@[5], "asset"@, asset)
            &&& f@[6].0@ == "asset_size"@
            &&& match f@[6].1 {
                Node::Object(s) => s@.len() == 2 && value_field(
                    s@[0],
                    "width"@,
                    Node::Int(w as i64),
                ) && value_field(s@[1], "height"@, Node::Int(h as i64)),
                _ => false,
            }
        },
        _ => false,
    }
}

/// The record of a stored clip.
pub fn clip_record(id: i64, ts: &str, asset: &str, width: i32, height: i32) -> (r: Node)
    ensures
        is_clip_record(r, id, ts@, asset@, width, height),
{
    let mut size: Vec<(String, Node)> = Vec::new();
    size.push((String::from_str("width"), Node::Int(width as i64)));
    size.push((String::from_str("height"), Node::Int(height as i64)));
    let mut f: Vec<(String, Node)> = Vec::new();
    f.push((String::from_str("id"), Node::Int(id)));
    f.push((String::from_str("ts"), Node::Str(String::from_str(ts))));
    f.push((String::from_str("ai"), Node::Bool(false)));
    f.push((String::from_str("status"), Node::Str(String::from_str("done"))));
    f.push((String::from_str("transcript"), Node::Str(String::new())));
    f.push((String::from_str("asset"), Node::Str(String::from_str(asset))));
    f.push((String::from_str("asset_size"), Node::Object(size)));
    Node::Object(f)
}

/// What waiting for a transcript does next.
#[derive(Debug, PartialEq, Eq, Structural)]
pub enum IngestStep {
    /// The recorder is idle and the transcript is there.
    Success,
    /// The recorder has been idle long enough without a transcript.
    IdleWithoutTranscript,
    /// Two minutes have passed.
    Timeout,
    /// Look again later.
    Wait,
}

/// One look at the recorder: whether a nonempty transcript is there, whether
/// the recorder is idle, for how long it has been idle, and how long the wait
/// has lasted, in milliseconds.
pub open spec fn ingest_spec(has_text: bool, idle: bool, idle_ms: u64, elapsed_ms: u64) -> IngestStep {
    if has_text && idle {
        IngestStep::Success
    } else if idle && !has_text && idle_ms >= 1500 && elapsed_ms >= 3000 {
        IngestStep::IdleWithoutTranscript
    } else if elapsed_ms >= 120000 {
        IngestStep::Timeout
    } else {
        IngestStep::Wait
    }
}

/// Decides the next step of waiting for a transcript.
pub fn ingest_step(has_text: bool, idle: bool, idle_ms: u64, elapsed_ms: u64) -> (r: IngestStep)
    ensures
        r == ingest_spec(has_text, idle, idle_ms, elapsed_ms),
{
    if has_text && idle {
        IngestStep::Success
    } else if idle && !has_text && idle_ms >= 1500 && elapsed_ms >= 3000 {
        IngestStep::IdleWithoutTranscript
    } else if elapsed_ms >= 120000 {
        IngestStep::Timeout
    } else {
        IngestStep::Wait
    }
}

impl IngestStep {
    /// The word the ingest log uses for how the wait ended.
    pub fn label(&self) -> (r: String)
        ensures
            *self == IngestStep::Success ==> r@ == "success"@,
            *self == IngestStep::IdleWithoutTranscript ==> r@ == "idle-without-transcript"@,
            *self == IngestStep::Timeout ==> r@ == "timeout"@,
            *self == IngestStep::Wait ==> r@ == "wait"@,
    {
        match self {
            IngestStep::Success => String::from_str("success"),
            IngestStep::IdleWithoutTranscript => String::from_str("idle-without-transcript"),
            IngestStep::Timeout => String::from_str("timeout"),
            IngestStep::Wait => String::from_str("wait"),
        }
    }
}

/// Records the end of a dictation: the transcript and `done`, or `no-transcript`.
pub fn finish_transcription(entry: &mut Node, text: Option<String>)
    requires
        old(entry).takes_fields(),
    ensures
        match text {
            Some(t) => exists|mid: Node, d: String|
                d@ == "done"@ && field_set(*old(entry), mid, "transcript"@, Node::Str(t))
                    && field_set(mid, *final(entry), "status"@, Node::Str(d)),
            None => exists|s: String|
                s@ == "no-transcript"@ && field_set(
                    *old(entry),
                    *final(entry),
                    "status"@,
                    Node::Str(s),
                ),
        },
{
    match text {
        Some(t) => {
            set_field(entry, "transcript", Node::Str(t));
            let ghost mid = *entry;
            let d = String::from_str("done");
            set_field(entry, "status", Node::Str(d));
        },
        None => {
            let s = String::from_str("no-transcript");
            set_field(entry, "status", Node::Str(s));
        },
    }
}

/// Whether the analysis setting file says `on`.
pub fn ai_enabled_text(text: &str) -> (r: bool)
    ensures
        r == (trim(text@) == "on"@),
{
    let t = string_of(&trim_chars(&chars_of(text)));
    crate::text::str_eq(t.as_str(), "on")
}

/// The analysis setting after `ai`, `ai on`, `ai off` or `ai toggle`.
pub open spec fn ai_next_spec(current: bool, arg: Option<Seq<char>>) -> bool {
    match arg {
        None => current,
        Some(a) => if a == "toggle"@ {
            !current
        } else if a == "on"@ {
            true
        } else {
            false
        },
    }
}

pub fn ai_next(current: bool, arg: Option<&str>) -> (r: bool)
    ensures
        r == ai_next_spec(
            current,
            match arg {
                Some(a) => Some(a@),
                None => None,
            },
        ),
{
    match arg {
        None => current,
        Some(a) => if crate::text::str_eq(a, "toggle") {
            !current
        } else if crate::text::str_eq(a, "on") {
            true
        } else {
            false
        },
    }
}

/// A polled snapshot request whose stamp equals the last one: the panel
/// already has the current state.
pub fn poll_unchanged(request: &Node, cached: &str, stamp: &str) -> (r: bool)
    ensures
        r == (request.bool_at("poll"@) == Some(true) && cached@.len() > 0 && cached@ == stamp@),
{
    request.get_bool("poll") == Some(true) && !cached.is_empty() && crate::text::str_eq(
        cached,
        stamp,
    )
}

} // verus!

verus! {

/// Stores an analysis result: `context` and `context_status: "done"`.
pub fn analysis_done(entry: &mut Node, context: Node)
    requires
        old(entry).takes_fields(),
    ensures
        exists|mid: Node, d: String|
            d@ == "done"@ && field_set(*old(entry), mid, "context"@, context) && field_set(
                mid,
                *final(entry),
                "context_status"@,
                Node::Str(d),
            ),
{
    set_field(entry, "context", context);
    let ghost mid = *entry;
    let d = String::from_str("done");
    set_field(entry, "context_status", Node::Str(d));
}

/// Records a failed analysis: no `context`, `context_status: "error"`.
pub fn analysis_failed(entry: &mut Node)
    requires
        old(entry).takes_fields(),
    ensures
        exists|mid: Node, e: String|
            e@ == "error"@ && match *old(entry) {
                Node::Object(of) => mid matches Node::Object(mf) && mf@
                    == crate::value::without_key(of@, "context"@),
                _ => mid == *old(entry),
            } && field_set(mid, *final(entry), "context_status"@, Node::Str(e)),
{
    crate::value::remove_field(entry, "context");
    let ghost mid = *entry;
    let e = String::from_str("error");
    set_field(entry, "context_status", Node::Str(e));
}

/// The window fields of a screenshot: `{"class", "title"}`.
pub open spec fn is_window_record(w: Node, class: Seq<char>, title: Seq<char>) -> bool {
    match w {
        Node::Object(f) => f@.len() == 2 && str_field(f@[0], "class"@, class) && str_field(
            f@[1],
            "title"@,
            title,
        ),
        _ => false,
    }
}

/// The text of field `key` of the active-window description, or empty.
pub open spec fn str_or_empty(v: Node, key: Seq<char>) -> Seq<char> {
    match v.str_at(key) {
        Some(s) => s,
        None => seq![],
    }
}

/// Attaches a screenshot to a note: the `shot` path and the `window` class
/// and title of the focused window (empty when unknown).
pub fn attach_screenshot(entry: &mut Node, shot: &str, window: &Node)
    requires
        old(entry).takes_fields(),
    ensures
        exists|mid: Node, s: String, w: Node|
            s@ == shot@ && field_set(*old(entry), mid, "shot"@, Node::Str(s)) && is_window_record(
                w,
                str_or_empty(*window, "class"@),
                str_or_empty(*window, "title"@),
            ) && field_set(mid, *final(entry), "window"@, w),
{
    let class = match window.get_str("class") {
        Some(c) => c.clone(),
        None => String::new(),
    };
    let title = match window.get_str("title") {
        Some(t) => t.clone(),
        None => String::new(),
    };
    let mut f: Vec<(String, Node)> = Vec::new();
    f.push((String::from_str("class"), Node::Str(class)));
    f.push((String::from_str("title"), Node::Str(title)));
    let w = Node::Object(f);
    let s = String::from_str(shot);
    set_field(entry, "shot", Node::Str(s));
    let ghost mid = *entry;
    set_field(entry, "window", w);
}

/// A panel reply that reports success.
pub fn reply_ok(reply: &Node) -> (r: bool)
    ensures
        r == (reply.bool_at("ok"@) == Some(true)),
{
    reply.get_bool("ok") == Some(true)
}

/// The panel is open and its new-note editor has keyboard focus.
pub fn note_has_focus(reply: &Node) -> (r: bool)
    ensures
        r == (reply.bool_at("active"@) == Some(true) && reply.str_at("focus"@) == Some("note"@)),
{
    reply.get_bool("active") == Some(true) && reply.str_is("focus", "note")
}

/// The monitor to capture: the focused one, else the first.
pub open spec fn monitor_spec(mons: Seq<Node>) -> Option<Seq<char>> {
    let chosen = if exists|i: int| 0 <= i < mons.len() && (#[trigger] mons[i]).bool_at("focused"@)
        == Some(true) {
        Some(
            mons[choose|i: int|
                0 <= i < mons.len() && (#[trigger] mons[i]).bool_at("focused"@) == Some(true) && (
                forall|j: int| 0 <= j < i ==> (#[trigger] mons[j]).bool_at("focused"@) != Some(true))],
        )
    } else if mons.len() > 0 {
        Some(mons[0])
    } else {
        None
    };
    match chosen {
        Some(m) => m.str_at("name"@),
        None => None,
    }
}

/// The name of the monitor to capture from the compositor's monitor list.
pub fn focused_monitor(mons: &Vec<Node>) -> (r: Option<String>)
    ensures
        opt_string(r) == monitor_spec(mons@),
{
    let mut i: usize = 0;
    while i < mons.len()
        invariant
            i <= mons.len(),
            forall|j: int| 0 <= j < i ==> (#[trigger] mons@[j]).bool_at("focused"@) != Some(true),
        decreases mons.len() - i,
    {
        if mons[i].get_bool("focused") == Some(true) {
            let ghost k = choose|k: int|
                0 <= k < mons@.len() && (#[trigger] mons@[k]).bool_at("focused"@) == Some(true) && (
                forall|j: int| 0 <= j < k ==> (#[trigger] mons@[j]).bool_at("focused"@) != Some(true));
            proof {
                assert(0 <= i < mons@.len() && mons@[i as int].bool_at("focused"@) == Some(true) && (
                forall|j: int| 0 <= j < i ==> (#[trigger] mons@[j]).bool_at("focused"@) != Some(true)));
                if k < i {
                    assert(mons@[k].bool_at("focused"@) != Some(true));
                }
                if k > i {
                    assert(mons@[i as int].bool_at("focused"@) != Some(true));
                }
            }
            return match mons[i].get_str("name") {
                Some(n) => Some(n.clone()),
                None => None,
            };
        }
        i = i + 1;
    }
    if mons.len() > 0 {
        match mons[0].get_str("name") {
            Some(n) => Some(n.clone()),
            None => None,
        }
    } else {
        None
    }
}

pub open spec fn opt_string(o: Option<String>) -> Option<Seq<char>> {
    match o {
        Some(s) => Some(s@),
        None => None,
    }
}

/// The lines of the records file that hold a record: every line that is not blank.
pub open spec fn record_lines_spec(ls: Seq<Seq<char>>) -> Seq<Seq<char>>
    decreases ls.len(),
{
    if ls.len() == 0 {
        seq![]
    } else {
        let prev = record_lines_spec(ls.drop_last());
        if trim(ls.last()).len() > 0 {
            prev.push(ls.last())
        } else {
            prev
        }
    }
}

/// The non-blank lines of the records file, one record each.
pub fn record_lines(text: &str) -> (r: Vec<String>)
    ensures
        r@.map_values(|s: String| s@) == record_lines_spec(crate::text::lines(text@)),
{
    let ls = crate::text::lines_of(text);
    let ghost lv = crate::text::views(ls@);
    let mut out: Vec<String> = Vec::new();
    let mut i: usize = 0;
    assert(lv.take(0) =~= Seq::<Seq<char>>::empty());
    while i < ls.len()
        invariant
            i <= ls.len(),
            lv == crate::text::views(ls@),
            out@.map_values(|s: String| s@) == record_lines_spec(lv.take(i as int)),
        decreases ls.len() - i,
    {
        assert(lv.take(i + 1).drop_last() =~= lv.take(i as int));
        assert(lv.take(i + 1).last() == ls@[i as int]@);
        if trim_chars(&ls[i]).len() > 0 {
            let ghost before = out@.map_values(|s: String| s@);
            out.push(string_of(&ls[i]));
            assert(out@.map_values(|s: String| s@) =~= before.push(ls@[i as int]@));
        }
        i = i + 1;
    }
    assert(lv.take(i as int) =~= lv);
    out
}

/// A font family on one line: `\r` and `\n` become spaces.
pub open spec fn one_line_spec(s: Seq<char>) -> Seq<char> {
    s.map_values(|c: char| if c == '\r' || c == '\n' {
        ' '
    } else {
        c
    })
}

pub fn one_line(s: &str) -> (r: String)
    ensures
        r@ == one_line_spec(s@),
{
    let v = chars_of(s);
    let mut out: Vec<char> = Vec::new();
    let mut i: usize = 0;
    while i < v.len()
        invariant
            i <= v.len(),
            v@ == s@,
            out@ == one_line_spec(v@.take(i as int)),
        decreases v.len() - i,
    {
        let c = v[i];
        out.push(if c == '\r' || c == '\n' {
            ' '
        } else {
            c
        });
        assert(out@ =~= one_line_spec(v@.take(i + 1)));
        i = i + 1;
    }
    assert(v@.take(i as int) =~= v@);
    string_of(&out)
}

/// The folder name of a generated session: `STAMP`, `STAMP-name`, then a
/// `-N` counter from 2 when the name is taken.
pub open spec fn session_folder_text(stamp: Seq<char>, suffix: Seq<char>, counter: nat) -> Seq<char> {
    if counter < 2 {
        stamp + suffix
    } else {
        stamp + suffix + "-"@ + decimal(counter)
    }
}

pub fn session_folder(stamp: &str, suffix: &str, counter: u32) -> (r: String)
    ensures
        r@ == session_folder_text(stamp@, suffix@, counter as nat),
{
    let mut out: Vec<char> = Vec::new();
    push_str(&mut out, stamp);
    push_str(&mut out, suffix);
    if counter >= 2 {
        push_str(&mut out, "-");
        push_decimal(&mut out, counter as u128);
    }
    assert(out@ =~= session_folder_text(stamp@, suffix@, counter as nat));
    string_of(&out)
}

} // verus!

verus! {

/// Why a note cannot be analyzed.
#[derive(Debug, PartialEq, Eq, Structural)]
pub enum AnalyzeError {
    /// No record has the id.
    NotFound(i64),
    /// The record is a section heading.
    Section(i64),
    /// The record is a plain note, without analysis.
    Plain(i64),
}

impl AnalyzeError {
    pub fn message(&self) -> (r: String)
        ensures
            r@ == match *self {
                AnalyzeError::NotFound(n) => "entry "@ + crate::text::signed_decimal(n as int)
                    + " not found"@,
                AnalyzeError::Section(n) => "entry "@ + crate::text::signed_decimal(n as int)
                    + " is a section"@,
                AnalyzeError::Plain(n) => "entry "@ + crate::text::signed_decimal(n as int)
                    + " is a plain entry"@,
            },
    {
        let mut out: Vec<char> = Vec::new();
        push_str(&mut out, "entry ");
        match self {
            AnalyzeError::NotFound(n) => {
                crate::text::push_signed(&mut out, *n);
                push_str(&mut out, " not found");
            },
            AnalyzeError::Section(n) => {
                crate::text::push_signed(&mut out, *n);
                push_str(&mut out, " is a section");
            },
            AnalyzeError::Plain(n) => {
                crate::text::push_signed(&mut out, *n);
                push_str(&mut out, " is a plain entry");
            },
        }
        string_of(&out)
    }
}

/// The note that an analysis worker was started for: the first record with
/// the id, which must be neither a section nor a plain note.
pub fn analysis_target(entries: &Vec<Node>, id: i64) -> (r: Result<&Node, AnalyzeError>)
    ensures
        match r {
            Ok(e) => crate::records::entry_with_id(entries@, id) == Some(*e)
                && !crate::markdown::is_section(*e) && !crate::markdown::is_plain(*e),
            Err(AnalyzeError::NotFound(n)) => n == id && crate::records::entry_with_id(
                entries@,
                id,
            ) is None,
            Err(AnalyzeError::Section(n)) => n == id && (crate::records::entry_with_id(
                entries@,
                id,
            ) matches Some(e) && crate::markdown::is_section(e)),
            Err(AnalyzeError::Plain(n)) => n == id && (crate::records::entry_with_id(
                entries@,
                id,
            ) matches Some(e) && !crate::markdown::is_section(e) && crate::markdown::is_plain(e)),
        },
{
    match crate::records::find_entry(entries, id) {
        None => Err(AnalyzeError::NotFound(id)),
        Some(e) => if e.str_is("kind", "section") {
            Err(AnalyzeError::Section(id))
        } else if e.get_bool("ai") == Some(false) {
            Err(AnalyzeError::Plain(id))
        } else {
            Ok(e)
        },
    }
}

} // verus!
