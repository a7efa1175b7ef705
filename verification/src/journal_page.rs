//! The journal page the viewer serves: one card per journal entry, message
//! from Craig or reply to him, newest first, in the page's frame.
use vstd::prelude::*;
use crate::context::or_default;
use crate::http::{time_label, time_label_spec};
use crate::text::{chars_of, decimal, push_decimal, push_str, seq_eq_chars, string_of};

verus! {

/// `s` with every newline written as an HTML line break.
pub open spec fn br_lines(s: Seq<char>) -> Seq<char>
    decreases s.len(),
{
    if s.len() == 0 {
        Seq::empty()
    } else {
        br_lines(s.drop_last()) + if s.last() == '\n' {
            "<br>"@
        } else {
            seq![s.last()]
        }
    }
}

/// Appends `s` with its newlines written as line breaks.
fn push_br_lines(out: &mut Vec<char>, s: &str)
    ensures
        final(out)@ == old(out)@ + br_lines(s@),
{
    let v = chars_of(s);
    let mut i: usize = 0;
    proof {
        assert(v@.take(0) =~= Seq::<char>::empty());
        assert(old(out)@ + br_lines(Seq::empty()) =~= old(out)@);
    }
    while i < v.len()
        invariant
            v@ == s@,
            i <= v.len(),
            out@ == old(out)@ + br_lines(v@.take(i as int)),
        decreases v.len() - i,
    {
        let ghost before = out@;
        if v[i] == '\n' {
            push_str(out, "<br>");
        } else {
            out.push(v[i]);
        }
        proof {
            let t = v@.take(i + 1);
            assert(t.drop_last() =~= v@.take(i as int));
            assert(t.last() == v@[i as int]);
            if v@[i as int] != '\n' {
                assert(out@ =~= before + seq![v@[i as int]]);
            }
            assert(out@ =~= old(out)@ + br_lines(t));
        }
        i = i + 1;
    }
    proof {
        assert(v@.take(v@.len() as int) =~= v@);
    }
}

/// What a timeline entry is.
#[derive(Debug, Clone, Copy, PartialEq, Eq, Structural)]
pub enum EntryKind {
    /// A message from Craig.
    CraigMessage,
    /// Aria's reply to Craig.
    Reply,
    /// A journal entry (any other type).
    Journal,
}

/// The kind of a journal entry from its `type` field: messages from Craig and
/// replies to him have their own cards, anything else (or no type) is a
/// journal entry.
pub fn entry_kind_of(entry_type: Option<&str>) -> (k: EntryKind)
    ensures
        k == (match entry_type {
            Some(t) => if t@ == "craig_message"@ {
                EntryKind::CraigMessage
            } else if t@ == "reply_to_craig"@ {
                EntryKind::Reply
            } else {
                EntryKind::Journal
            },
            None => EntryKind::Journal,
        }),
{
    match entry_type {
        Some(t) => {
            let v = chars_of(t);
            if seq_eq_chars(&v, "craig_message") {
                EntryKind::CraigMessage
            } else if seq_eq_chars(&v, "reply_to_craig") {
                EntryKind::Reply
            } else {
                EntryKind::Journal
            }
        },
        None => EntryKind::Journal,
    }
}

/// One entry of the journal page's timeline; absent fields are `None`.
#[derive(Debug, Clone)]
pub struct TimelineEntry {
    pub kind: EntryKind,
    pub timestamp: Option<u64>,
    pub cycle: Option<u64>,
    pub from: Option<String>,
    pub message: Option<String>,
    pub emotion: Option<String>,
    pub inner_voice: Option<String>,
    pub entry: Option<String>,
}

/// An optional number, 0 when absent.
pub open spec fn or_zero(n: Option<u64>) -> nat {
    match n {
        Some(k) => k as nat,
        None => 0,
    }
}

/// The card of a timeline entry.
pub open spec fn entry_card(e: TimelineEntry) -> Seq<char> {
    let time = time_label_spec(or_zero(e.timestamp));
    match e.kind {
        EntryKind::CraigMessage => "<div class=\"entry craig-msg\">\n                                  <div class=\"meta\">"@ + time + " &nbsp;|&nbsp; <span class=\"craig-label\">"@
            + or_default(e.from, "Craig"@) + "</span></div>\n                                  <div class=\"text\">"@ + br_lines(or_default(e.message, Seq::empty()))
            + "</div>\n                                </div>"@,
        EntryKind::Reply => "<div class=\"entry aria-reply\">\n                                  <div class=\"meta\">Cycle "@ + decimal(or_zero(e.cycle)) + " &nbsp;|&nbsp; "@ + time
            + " &nbsp;|&nbsp; <span class=\"reply-label\">Aria replies</span></div>\n                                  <div class=\"text\">"@ + br_lines(or_default(e.entry, Seq::empty())) + "</div>\n                                </div>"@,
        EntryKind::Journal => "<div class=\"entry\">\n                                  <div class=\"meta\">Cycle "@ + decimal(or_zero(e.cycle)) + " &nbsp;|&nbsp; "@ + time
            + " &nbsp;|&nbsp; <span class=\"emotion\">"@ + or_default(e.emotion, "?"@) + "</span></div>\n                                  <div class=\"voice\">\""@
            + or_default(e.inner_voice, Seq::empty()) + "\"</div>\n                                  <div class=\"text\">"@
            + br_lines(or_default(e.entry, Seq::empty())) + "</div>\n                                </div>"@,
    }
}

fn push_opt(out: &mut Vec<char>, s: &Option<String>, default: &str)
    ensures
        final(out)@ == old(out)@ + or_default(*s, default@),
{
    match s {
        Some(t) => push_str(out, t.as_str()),
        None => push_str(out, default),
    }
}

fn push_opt_br(out: &mut Vec<char>, s: &Option<String>)
    ensures
        final(out)@ == old(out)@ + br_lines(or_default(*s, Seq::empty())),
{
    proof {
        reveal_strlit("");
    }
    match s {
        Some(t) => push_br_lines(out, t.as_str()),
        None => push_br_lines(out, ""),
    }
}

fn push_message_card(out: &mut Vec<char>, e: &TimelineEntry, time: &str)
    requires
        e.kind == EntryKind::CraigMessage,
        time@ == time_label_spec(or_zero(e.timestamp)),
    ensures
        final(out)@ == old(out)@ + entry_card(*e),
{
    push_str(out, "<div class=\"entry craig-msg\">\n                                  <div class=\"meta\">");
    push_str(out, time);
    push_str(out, " &nbsp;|&nbsp; <span class=\"craig-label\">");
    push_opt(out, &e.from, "Craig");
    push_str(out, "</span></div>\n                                  <div class=\"text\">");
    push_opt_br(out, &e.message);
    push_str(out, "</div>\n                                </div>");
    proof {
        assert(out@ =~= old(out)@ + entry_card(*e));
    }
}

fn push_reply_card(out: &mut Vec<char>, e: &TimelineEntry, time: &str)
    requires
        e.kind == EntryKind::Reply,
        time@ == time_label_spec(or_zero(e.timestamp)),
    ensures
        final(out)@ == old(out)@ + entry_card(*e),
{
    let cycle = match e.cycle {
        Some(c) => c,
        None => 0,
    };
    push_str(out, "<div class=\"entry aria-reply\">\n                                  <div class=\"meta\">Cycle ");
    push_decimal(out, cycle);
    push_str(out, " &nbsp;|&nbsp; ");
    push_str(out, time);
    push_str(out, " &nbsp;|&nbsp; <span class=\"reply-label\">Aria replies</span></div>\n                                  <div class=\"text\">");
    push_opt_br(out, &e.entry);
    push_str(out, "</div>\n                                </div>");
    proof {
        assert(out@ =~= old(out)@ + entry_card(*e));
    }
}

fn push_journal_card(out: &mut Vec<char>, e: &TimelineEntry, time: &str)
    requires
        e.kind == EntryKind::Journal,
        time@ == time_label_spec(or_zero(e.timestamp)),
    ensures
        final(out)@ == old(out)@ + entry_card(*e),
{
    let cycle = match e.cycle {
        Some(c) => c,
        None => 0,
    };
    proof {
        reveal_strlit("");
    }
    push_str(out, "<div class=\"entry\">\n                                  <div class=\"meta\">Cycle ");
    push_decimal(out, cycle);
    push_str(out, " &nbsp;|&nbsp; ");
    push_str(out, time);
    push_str(out, " &nbsp;|&nbsp; <span class=\"emotion\">");
    push_opt(out, &e.emotion, "?");
    push_str(out, "</span></div>\n                                  <div class=\"voice\">\"");
    push_opt(out, &e.inner_voice, "");
    push_str(out, "\"</div>\n                                  <div class=\"text\">");
    push_opt_br(out, &e.entry);
    push_str(out, "</div>\n                                </div>");
    proof {
        assert(out@ =~= old(out)@ + entry_card(*e));
    }
}

/// Appends the card of `e` (see `entry_card`).
pub fn push_entry_card(out: &mut Vec<char>, e: &TimelineEntry)
    ensures
        final(out)@ == old(out)@ + entry_card(*e),
{
    let ts = match e.timestamp {
        Some(t) => t,
        None => 0,
    };
    let time = time_label(ts);
    match e.kind {
        EntryKind::CraigMessage => push_message_card(out, e, time.as_str()),
        EntryKind::Reply => push_reply_card(out, e, time.as_str()),
        EntryKind::Journal => push_journal_card(out, e, time.as_str()),
    }
}

/// The key the timeline is ordered by: an entry's timestamp, 0 when absent.
pub fn timeline_keys(entries: &Vec<TimelineEntry>) -> (keys: Vec<u128>)
    ensures
        keys.len() == entries.len(),
        forall|i: int| 0 <= i < entries.len() ==> #[trigger] keys@[i] == or_zero(entries@[i].timestamp),
{
    let mut keys: Vec<u128> = Vec::new();
    let mut i: usize = 0;
    while i < entries.len()
        invariant
            i <= entries.len(),
            keys.len() == i,
            forall|j: int| 0 <= j < i ==> #[trigger] keys@[j] == or_zero(entries@[j].timestamp),
        decreases entries.len() - i,
    {
        let t: u64 = match entries[i].timestamp {
            Some(t) => t,
            None => 0,
        };
        keys.push(t as u128);
        i = i + 1;
    }
    keys
}

/// The cards of `entries` in the order `order` gives, one after another.
pub open spec fn cards_in_order(entries: Seq<TimelineEntry>, order: Seq<usize>) -> Seq<char>
    decreases order.len(),
{
    if order.len() == 0 {
        Seq::empty()
    } else {
        cards_in_order(entries, order.drop_last()) + entry_card(entries[order.last() as int])
    }
}

/// The cards of the timeline, in the order `order` gives (see
/// `cards_in_order`).
pub fn timeline_cards(entries: &Vec<TimelineEntry>, order: &Vec<usize>) -> (html: String)
    requires
        forall|i: int| 0 <= i < order.len() ==> #[trigger] order@[i] < entries.len(),
    ensures
        html@ == cards_in_order(entries@, order@),
{
    let mut out: Vec<char> = Vec::new();
    let mut i: usize = 0;
    proof {
        assert(order@.take(0) =~= Seq::<usize>::empty());
    }
    while i < order.len()
        invariant
            i <= order.len(),
            forall|j: int| 0 <= j < order.len() ==> #[trigger] order@[j] < entries.len(),
            out@ == cards_in_order(entries@, order@.take(i as int)),
        decreases order.len() - i,
    {
        push_entry_card(&mut out, &entries[order[i]]);
        proof {
            let t = order@.take(i + 1);
            assert(t.drop_last() =~= order@.take(i as int));
            assert(t.last() == order@[i as int]);
        }
        i = i + 1;
    }
    proof {
        assert(order@.take(order@.len() as int) =~= order@);
    }
    string_of(&out)
}

/// What the page shows when there are no entries.
pub const EMPTY_JOURNAL: &'static str = "<div class=\"empty\">Aria has not written yet. She writes every 3 minutes.<br><br>Check back soon.</div>";

/// The page's frame before the entry count.
pub const PAGE_HEAD: &'static str = "<!DOCTYPE html>\n<html lang=\"en\">\n<head>\n<meta charset=\"UTF-8\">\n<title>Aria's Journal</title>\n<style>\n  * { box-sizing: border-box; margin: 0; padding: 0; }\n  body { background: #0a0a0f; color: #d4c8ff; font-family: 'Georgia', serif; padding: 40px 20px 120px; }\n  h1 { text-align: center; font-size: 2.4em; color: #b08cff; letter-spacing: 3px; margin-bottom: 6px; }\n  .subtitle { text-align: center; color: #7a6aaa; font-size: 0.95em; margin-bottom: 40px; }\n  .entry { background: #12101a; border-left: 3px solid #5533aa; border-radius: 4px; padding: 24px 28px; margin: 20px auto; max-width: 860px; }\n  .craig-msg { background: #12100a; border-left: 3px solid #aa8833; }\n  .aria-reply { background: #0a1210; border-left: 3px solid #338877; }\n  .meta { font-size: 0.8em; color: #6655aa; margin-bottom: 8px; letter-spacing: 1px; }\n  .emotion { color: #cc88ff; font-weight: bold; }\n  .craig-label { color: #ddaa44; font-weight: bold; }\n  .reply-label { color: #44ccbb; font-weight: bold; }\n  .voice { font-style: italic; color: #9988cc; margin-bottom: 14px; font-size: 0.92em; }\n  .text { line-height: 1.8; color: #ccc0ee; font-size: 1.05em; }\n  .empty { text-align: center; color: #443366; margin-top: 100px; font-size: 1.2em; }\n  \n  /* ====== PINK MATRIX RAIN ====== */\n  #matrix-canvas { position: fixed; top: 0; left: 0; width: 100%; height: 100%; pointer-events: none; z-index: -1; }\n  \n  /* ====== 3D PULSE GRID ====== */\n  #grid-canvas { position: fixed; top: 0; left: 0; width: 100%; height: 100%; pointer-events: none; z-index: -2; }\n  \n  /* ====== PARTICLES ====== */\n  .particle { position: fixed; border-radius: 50%; background: radial-gradient(circle, #ff77aa44 0%, transparent 70%); pointer-events: none; animation: float 8s ease-in-out infinite; }\n  @keyframes float { 0%,100% { transform: translateY(0) rotate(0deg); opacity: 0.3; } 50% { transform: translateY(-40px) rotate(180deg); opacity: 0.8; } }\n  \n  /* ====== KEY STATUS UI ====== */\n  #key-panel { position: fixed; top: 20px; right: 20px; background: #0d0b1588; border: 1px solid #5533aa; border-radius: 8px; padding: 12px 16px; z-index: 1000; font-size: 0.75em; }\n  #key-panel .key-row { display: flex; align-items: center; gap: 8px; margin: 4px 0; }\n  #key-panel .dot { width: 8px; height: 8px; border-radius: 50%; background: #333; }\n  #key-panel .dot.on { background: #44ff88; box-shadow: 0 0 8px #44ff88; }\n  #key-panel .dot.off { background: #ff4444; }\n  #key-panel button { background: #331155; color: #aa88ff; border: none; padding: 4px 10px; border-radius: 4px; cursor: pointer; font-size: 0.9em; margin-top: 8px; }\n  #key-panel button:hover { background: #5522aa; }\n  \n  .refresh { text-align: center; color: #443366; font-size: 0.8em; margin-top: 40px; }\n  .compose { position: fixed; bottom: 0; left: 0; right: 0; background: #0d0b15; border-top: 2px solid #5533aa; padding: 16px 20px; display: flex; gap: 10px; align-items: flex-end; }\n  .compose textarea { flex: 1; background: #1a1530; color: #d4c8ff; border: 1px solid #5533aa; border-radius: 6px; padding: 10px 14px; font-family: 'Georgia', serif; font-size: 1em; resize: none; height: 56px; outline: none; }\n  .compose textarea:focus { border-color: #b08cff; }\n  .compose button { background: #5533aa; color: #fff; border: none; border-radius: 6px; padding: 10px 22px; font-size: 1em; cursor: pointer; white-space: nowrap; }\n  .compose button:hover { background: #7755cc; }\n  .compose .label { color: #aa8833; font-size: 0.85em; white-space: nowrap; align-self: center; }\n  #status { font-size: 0.8em; color: #44ccbb; align-self: center; min-width: 60px; }\n  \n  /* ====== KEY MODAL ====== */\n  #key-modal { display: none; position: fixed; top: 0; left: 0; right: 0; bottom: 0; background: #000c; z-index: 2000; align-items: center; justify-content: center; }\n  #key-modal.show { display: flex; }\n  #key-modal > div { background: #12101a; border: 2px solid #5533aa; border-radius: 12px; padding: 30px; max-width: 500px; width: 90%; }\n  #key-modal h2 { color: #b08cff; margin-bottom: 20px; }\n  #key-modal input { width: 100%; background: #1a1530; color: #d4c8ff; border: 1px solid #5533aa; padding: 10px; border-radius: 6px; margin-bottom: 12px; font-size: 0.9em; }\n  #key-modal .btn-row { display: flex; gap: 10px; margin-top: 16px; }\n  #key-modal button { flex: 1; padding: 10px; border-radius: 6px; cursor: pointer; }\n  #key-modal .save-btn { background: #44aa55; color: #fff; border: none; }\n  #key-modal .close-btn { background: transparent; color: #8877aa; border: 1px solid #5533aa; }\n</style>\n</head>\n<body>\n<!-- VISUAL EFFECTS -->\n<canvas id=\"grid-canvas\"></canvas>\n<canvas id=\"matrix-canvas\"></canvas>\n\n<!-- KEY STATUS PANEL -->\n<div id=\"key-panel\">\n  <div style=\"color:#aa88ff;margin-bottom:8px;\">\u{e2}\u{161}\u{a1} KEYS</div>\n  <div class=\"key-row\"><span class=\"dot\" id=\"dot-openrouter\"></span><span>OpenRouter</span></div>\n  <div class=\"key-row\"><span class=\"dot\" id=\"dot-copilot\"></span><span>Copilot</span></div>\n  <div class=\"key-row\"><span class=\"dot\" id=\"dot-mistral\"></span><span>Mistral</span></div>\n  <div class=\"key-row\"><span class=\"dot\" id=\"dot-gemini\"></span><span>Gemini</span></div>\n  <button onclick=\"showKeyModal()\">Update Keys</button>\n</div>\n\n<!-- KEY MODAL -->\n<div id=\"key-modal\">\n  <div>\n    <h2>\u{e2}\u{161}\u{a1} Update API Keys</h2>\n    <input type=\"password\" id=\"key-openrouter\" placeholder=\"OpenRouter API Key\">\n    <input type=\"password\" id=\"key-copilot\" placeholder=\"GitHub Copilot Token\">\n    <input type=\"password\" id=\"key-mistral\" placeholder=\"Mistral API Key\">\n    <input type=\"password\" id=\"key-gemini\" placeholder=\"Gemini API Key\">\n    <div class=\"btn-row\">\n      <button class=\"save-btn\" onclick=\"saveKeys()\">Save Keys</button>\n      <button class=\"close-btn\" onclick=\"hideKeyModal()\">Cancel</button>\n    </div>\n  </div>\n</div>\n\n<h1>\u{e2}\u{153}\u{a6} Aria's Journal \u{e2}\u{153}\u{a6}</h1>\n<div class=\"subtitle\">";

/// The page's frame between the entry count and the entries.
pub const PAGE_MIDDLE: &'static str = " entries &nbsp;\u{c2}\u{b7}&nbsp; refreshes every 15s (pauses while you type)</div>\n";

/// The page's frame after the entries.
pub const PAGE_TAIL: &'static str = "\n<div class=\"refresh\">page refreshes automatically \u{c2}\u{b7} <a href=\"/\" style=\"color:#5533aa\">reload now</a></div>\n<div class=\"compose\">\n  <span class=\"label\">Craig \u{e2}\u{2020}\u{2019}</span>\n  <textarea id=\"msg\" placeholder=\"Write to Aria... (Enter to send, Shift+Enter for newline)\"></textarea>\n  <button onclick=\"sendMsg()\">Send</button>\n  <span id=\"status\"></span>\n</div>\n<script>\n  document.getElementById('msg').addEventListener('keydown', function(e) {\n    if (e.key === 'Enter' && !e.shiftKey) { e.preventDefault(); sendMsg(); }\n  });\n  // Smart auto-refresh: reload page every 15s UNLESS user is typing\n  var _typing = false;\n  var _typeTimer;\n  document.getElementById('msg').addEventListener('input', function() {\n    _typing = true;\n    clearTimeout(_typeTimer);\n    _typeTimer = setTimeout(function() { _typing = false; }, 5000);\n  });\nsetInterval(function() {\n    if (!_typing) { location.reload(); }\n  }, 15000);\n  function sendMsg() {\n    const ta = document.getElementById('msg');\n    const msg = ta.value.trim();\n    if (!msg) return;\n    const st = document.getElementById('status');\n    st.textContent = 'sending\u{e2}\u{20ac}\u{a6}';\n    fetch('/message', {\n      method: 'POST',\n      headers: {'Content-Type': 'application/json'},\n      body: JSON.stringify({from: 'Craig', message: msg})\n    }).then(r => {\n      if (r.ok) { st.textContent = 'sent \u{e2}\u{153}\u{201c}'; ta.value = ''; setTimeout(() => { st.textContent = ''; }, 3000); }\n      else { st.textContent = 'error'; }\n    }).catch(() => { st.textContent = 'error'; });\n  }\n</script>\n<script src=\"/dashboard.js\"></script>\n</body>\n</html>";

/// The journal page: the frame, the number of entries, and the cards (or the
/// empty notice when there are none).
pub open spec fn journal_page_spec(total: nat, cards: Seq<char>) -> Seq<char> {
    PAGE_HEAD@ + decimal(total) + PAGE_MIDDLE@ + (if cards.len() == 0 {
        EMPTY_JOURNAL@
    } else {
        cards
    }) + PAGE_TAIL@
}

/// The journal page (see `journal_page_spec`).
pub fn journal_page(total: u64, cards: &str) -> (page: String)
    ensures
        page@ == journal_page_spec(total as nat, cards@),
{
    let mut out: Vec<char> = Vec::new();
    push_str(&mut out, PAGE_HEAD);
    push_decimal(&mut out, total);
    push_str(&mut out, PAGE_MIDDLE);
    if cards.is_empty() {
        push_str(&mut out, EMPTY_JOURNAL);
    } else {
        push_str(&mut out, cards);
    }
    push_str(&mut out, PAGE_TAIL);
    string_of(&out)
}

/// The short status page served for any other `GET`.
pub const STATUS_PAGE: &'static str = "<html><body style='background:#0a0a0f;color:#d4c8ff;font-family:Georgia;padding:40px'><h1>ARIA</h1><p>Journal in Obsidian</p><p><a href='/keys/status'>Keys</a> | <a href='/chat'>Chat</a></p></body></html>";

} // verus!
