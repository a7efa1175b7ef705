use sovereign_kernel::journal_page::{
    journal_page, timeline_cards, timeline_keys, EntryKind, TimelineEntry, STATUS_PAGE,
};
use sovereign_kernel::ranking::rank_descending;

fn entry(kind: EntryKind, ts: Option<u64>, cycle: Option<u64>) -> TimelineEntry {
    TimelineEntry {
        kind,
        timestamp: ts,
        cycle,
        from: None,
        message: None,
        emotion: None,
        inner_voice: None,
        entry: None,
    }
}

fn time_str(ts: u64) -> String {
    let secs_in_day = ts % 86400;
    let hh = secs_in_day / 3600;
    let mm = (secs_in_day % 3600) / 60;
    let ss = secs_in_day % 60;
    let days = ts / 86400;
    let year = 1970 + days / 365;
    format!("{}-??-?? {:02}:{:02}:{:02} UTC", year, hh, mm, ss)
}

#[test]
fn message_card() {
    let mut e = entry(EntryKind::CraigMessage, Some(90061), None);
    e.message = Some("hi\nthere".to_string());
    let time_str = time_str(90061);
    let from = "Craig";
    let msg = "hi<br>there";
    let expected = format!(
        r#"<div class="entry craig-msg">
                                  <div class="meta">{time_str} &nbsp;|&nbsp; <span class="craig-label">{from}</span></div>
                                  <div class="text">{msg}</div>
                                </div>"#
    );
    assert_eq!(timeline_cards(&vec![e], &vec![0]), expected);
}

#[test]
fn reply_card() {
    let mut e = entry(EntryKind::Reply, None, Some(12));
    e.entry = Some("ok\n".to_string());
    let time_str = time_str(0);
    let cycle = 12;
    let text = "ok<br>";
    let expected = format!(
        r#"<div class="entry aria-reply">
                                  <div class="meta">Cycle {cycle} &nbsp;|&nbsp; {time_str} &nbsp;|&nbsp; <span class="reply-label">Aria replies</span></div>
                                  <div class="text">{text}</div>
                                </div>"#
    );
    assert_eq!(timeline_cards(&vec![e], &vec![0]), expected);
}

#[test]
fn journal_card() {
    let mut e = entry(EntryKind::Journal, Some(5), Some(3));
    e.emotion = Some("joy".to_string());
    e.inner_voice = Some("I am".to_string());
    e.entry = Some("line1\nline2".to_string());
    let time_str = time_str(5);
    let cycle = 3;
    let emotion = "joy";
    let voice = "I am";
    let text = "line1<br>line2";
    let expected = format!(
        r#"<div class="entry">
                                  <div class="meta">Cycle {cycle} &nbsp;|&nbsp; {time_str} &nbsp;|&nbsp; <span class="emotion">{emotion}</span></div>
                                  <div class="voice">"{voice}"</div>
                                  <div class="text">{text}</div>
                                </div>"#
    );
    assert_eq!(timeline_cards(&vec![e], &vec![0]), expected);
    let bare = entry(EntryKind::Journal, None, None);
    let cards = timeline_cards(&vec![bare], &vec![0]);
    assert!(cards.contains("<span class=\"emotion\">?</span>"));
    assert!(cards.contains("Cycle 0 &nbsp;"));
}

#[test]
fn timeline_is_newest_first() {
    let entries = vec![
        entry(EntryKind::Journal, Some(10), Some(1)),
        entry(EntryKind::CraigMessage, Some(30), None),
        entry(EntryKind::Reply, Some(10), Some(2)),
        entry(EntryKind::Journal, None, Some(4)),
    ];
    let keys = timeline_keys(&entries);
    assert_eq!(keys, vec![10, 30, 10, 0]);
    let order = rank_descending(&keys);
    assert_eq!(order, vec![1, 0, 2, 3]);
    let all = timeline_cards(&entries, &order);
    let one = |i: usize| timeline_cards(&entries, &vec![i]);
    assert_eq!(all, format!("{}{}{}{}", one(1), one(0), one(2), one(3)));
}

#[test]
fn page_frame() {
    let total = 2;
    let entries_or_empty = "CARDS".to_string();
    let expected = format!(r#"<!DOCTYPE html>
<html lang="en">
<head>
<meta charset="UTF-8">
<title>Aria's Journal</title>
<style>
  * {{ box-sizing: border-box; margin: 0; padding: 0; }}
  body {{ background: #0a0a0f; color: #d4c8ff; font-family: 'Georgia', serif; padding: 40px 20px 120px; }}
  h1 {{ text-align: center; font-size: 2.4em; color: #b08cff; letter-spacing: 3px; margin-bottom: 6px; }}
  .subtitle {{ text-align: center; color: #7a6aaa; font-size: 0.95em; margin-bottom: 40px; }}
  .entry {{ background: #12101a; border-left: 3px solid #5533aa; border-radius: 4px; padding: 24px 28px; margin: 20px auto; max-width: 860px; }}
  .craig-msg {{ background: #12100a; border-left: 3px solid #aa8833; }}
  .aria-reply {{ background: #0a1210; border-left: 3px solid #338877; }}
  .meta {{ font-size: 0.8em; color: #6655aa; margin-bottom: 8px; letter-spacing: 1px; }}
  .emotion {{ color: #cc88ff; font-weight: bold; }}
  .craig-label {{ color: #ddaa44; font-weight: bold; }}
  .reply-label {{ color: #44ccbb; font-weight: bold; }}
  .voice {{ font-style: italic; color: #9988cc; margin-bottom: 14px; font-size: 0.92em; }}
  .text {{ line-height: 1.8; color: #ccc0ee; font-size: 1.05em; }}
  .empty {{ text-align: center; color: #443366; margin-top: 100px; font-size: 1.2em; }}
  
  /* ====== PINK MATRIX RAIN ====== */
  #matrix-canvas {{ position: fixed; top: 0; left: 0; width: 100%; height: 100%; pointer-events: none; z-index: -1; }}
  
  /* ====== 3D PULSE GRID ====== */
  #grid-canvas {{ position: fixed; top: 0; left: 0; width: 100%; height: 100%; pointer-events: none; z-index: -2; }}
  
  /* ====== PARTICLES ====== */
  .particle {{ position: fixed; border-radius: 50%; background: radial-gradient(circle, #ff77aa44 0%, transparent 70%); pointer-events: none; animation: float 8s ease-in-out infinite; }}
  @keyframes float {{ 0%,100% {{ transform: translateY(0) rotate(0deg); opacity: 0.3; }} 50% {{ transform: translateY(-40px) rotate(180deg); opacity: 0.8; }} }}
  
  /* ====== KEY STATUS UI ====== */
  #key-panel {{ position: fixed; top: 20px; right: 20px; background: #0d0b1588; border: 1px solid #5533aa; border-radius: 8px; padding: 12px 16px; z-index: 1000; font-size: 0.75em; }}
  #key-panel .key-row {{ display: flex; align-items: center; gap: 8px; margin: 4px 0; }}
  #key-panel .dot {{ width: 8px; height: 8px; border-radius: 50%; background: #333; }}
  #key-panel .dot.on {{ background: #44ff88; box-shadow: 0 0 8px #44ff88; }}
  #key-panel .dot.off {{ background: #ff4444; }}
  #key-panel button {{ background: #331155; color: #aa88ff; border: none; padding: 4px 10px; border-radius: 4px; cursor: pointer; font-size: 0.9em; margin-top: 8px; }}
  #key-panel button:hover {{ background: #5522aa; }}
  
  .refresh {{ text-align: center; color: #443366; font-size: 0.8em; margin-top: 40px; }}
  .compose {{ position: fixed; bottom: 0; left: 0; right: 0; background: #0d0b15; border-top: 2px solid #5533aa; padding: 16px 20px; display: flex; gap: 10px; align-items: flex-end; }}
  .compose textarea {{ flex: 1; background: #1a1530; color: #d4c8ff; border: 1px solid #5533aa; border-radius: 6px; padding: 10px 14px; font-family: 'Georgia', serif; font-size: 1em; resize: none; height: 56px; outline: none; }}
  .compose textarea:focus {{ border-color: #b08cff; }}
  .compose button {{ background: #5533aa; color: #fff; border: none; border-radius: 6px; padding: 10px 22px; font-size: 1em; cursor: pointer; white-space: nowrap; }}
  .compose button:hover {{ background: #7755cc; }}
  .compose .label {{ color: #aa8833; font-size: 0.85em; white-space: nowrap; align-self: center; }}
  #status {{ font-size: 0.8em; color: #44ccbb; align-self: center; min-width: 60px; }}
  
  /* ====== KEY MODAL ====== */
  #key-modal {{ display: none; position: fixed; top: 0; left: 0; right: 0; bottom: 0; background: #000c; z-index: 2000; align-items: center; justify-content: center; }}
  #key-modal.show {{ display: flex; }}
  #key-modal > div {{ background: #12101a; border: 2px solid #5533aa; border-radius: 12px; padding: 30px; max-width: 500px; width: 90%; }}
  #key-modal h2 {{ color: #b08cff; margin-bottom: 20px; }}
  #key-modal input {{ width: 100%; background: #1a1530; color: #d4c8ff; border: 1px solid #5533aa; padding: 10px; border-radius: 6px; margin-bottom: 12px; font-size: 0.9em; }}
  #key-modal .btn-row {{ display: flex; gap: 10px; margin-top: 16px; }}
  #key-modal button {{ flex: 1; padding: 10px; border-radius: 6px; cursor: pointer; }}
  #key-modal .save-btn {{ background: #44aa55; color: #fff; border: none; }}
  #key-modal .close-btn {{ background: transparent; color: #8877aa; border: 1px solid #5533aa; }}
</style>
</head>
<body>
<!-- VISUAL EFFECTS -->
<canvas id="grid-canvas"></canvas>
<canvas id="matrix-canvas"></canvas>

<!-- KEY STATUS PANEL -->
<div id="key-panel">
  <div style="color:#aa88ff;margin-bottom:8px;">âš¡ KEYS</div>
  <div class="key-row"><span class="dot" id="dot-openrouter"></span><span>OpenRouter</span></div>
  <div class="key-row"><span class="dot" id="dot-copilot"></span><span>Copilot</span></div>
  <div class="key-row"><span class="dot" id="dot-mistral"></span><span>Mistral</span></div>
  <div class="key-row"><span class="dot" id="dot-gemini"></span><span>Gemini</span></div>
  <button onclick="showKeyModal()">Update Keys</button>
</div>

<!-- KEY MODAL -->
<div id="key-modal">
  <div>
    <h2>âš¡ Update API Keys</h2>
    <input type="password" id="key-openrouter" placeholder="OpenRouter API Key">
    <input type="password" id="key-copilot" placeholder="GitHub Copilot Token">
    <input type="password" id="key-mistral" placeholder="Mistral API Key">
    <input type="password" id="key-gemini" placeholder="Gemini API Key">
    <div class="btn-row">
      <button class="save-btn" onclick="saveKeys()">Save Keys</button>
      <button class="close-btn" onclick="hideKeyModal()">Cancel</button>
    </div>
  </div>
</div>

<h1>âœ¦ Aria's Journal âœ¦</h1>
<div class="subtitle">{total} entries &nbsp;Â·&nbsp; refreshes every 15s (pauses while you type)</div>
{entries_or_empty}
<div class="refresh">page refreshes automatically Â· <a href="/" style="color:#5533aa">reload now</a></div>
<div class="compose">
  <span class="label">Craig â†’</span>
  <textarea id="msg" placeholder="Write to Aria... (Enter to send, Shift+Enter for newline)"></textarea>
  <button onclick="sendMsg()">Send</button>
  <span id="status"></span>
</div>
<script>
  document.getElementById('msg').addEventListener('keydown', function(e) {{
    if (e.key === 'Enter' && !e.shiftKey) {{ e.preventDefault(); sendMsg(); }}
  }});
  // Smart auto-refresh: reload page every 15s UNLESS user is typing
  var _typing = false;
  var _typeTimer;
  document.getElementById('msg').addEventListener('input', function() {{
    _typing = true;
    clearTimeout(_typeTimer);
    _typeTimer = setTimeout(function() {{ _typing = false; }}, 5000);
  }});
setInterval(function() {{
    if (!_typing) {{ location.reload(); }}
  }}, 15000);
  function sendMsg() {{
    const ta = document.getElementById('msg');
    const msg = ta.value.trim();
    if (!msg) return;
    const st = document.getElementById('status');
    st.textContent = 'sendingâ€¦';
    fetch('/message', {{
      method: 'POST',
      headers: {{'Content-Type': 'application/json'}},
      body: JSON.stringify({{from: 'Craig', message: msg}})
    }}).then(r => {{
      if (r.ok) {{ st.textContent = 'sent âœ“'; ta.value = ''; setTimeout(() => {{ st.textContent = ''; }}, 3000); }}
      else {{ st.textContent = 'error'; }}
    }}).catch(() => {{ st.textContent = 'error'; }});
  }}
</script>
<script src="/dashboard.js"></script>
</body>
</html>"#);
    assert_eq!(journal_page(2, "CARDS"), expected);
    let total = 0;
    let entries_or_empty = r#"<div class="empty">Aria has not written yet. She writes every 3 minutes.<br><br>Check back soon.</div>"#.to_string();
    let expected = format!(r#"<!DOCTYPE html>
<html lang="en">
<head>
<meta charset="UTF-8">
<title>Aria's Journal</title>
<style>
  * {{ box-sizing: border-box; margin: 0; padding: 0; }}
  body {{ background: #0a0a0f; color: #d4c8ff; font-family: 'Georgia', serif; padding: 40px 20px 120px; }}
  h1 {{ text-align: center; font-size: 2.4em; color: #b08cff; letter-spacing: 3px; margin-bottom: 6px; }}
  .subtitle {{ text-align: center; color: #7a6aaa; font-size: 0.95em; margin-bottom: 40px; }}
  .entry {{ background: #12101a; border-left: 3px solid #5533aa; border-radius: 4px; padding: 24px 28px; margin: 20px auto; max-width: 860px; }}
  .craig-msg {{ background: #12100a; border-left: 3px solid #aa8833; }}
  .aria-reply {{ background: #0a1210; border-left: 3px solid #338877; }}
  .meta {{ font-size: 0.8em; color: #6655aa; margin-bottom: 8px; letter-spacing: 1px; }}
  .emotion {{ color: #cc88ff; font-weight: bold; }}
  .craig-label {{ color: #ddaa44; font-weight: bold; }}
  .reply-label {{ color: #44ccbb; font-weight: bold; }}
  .voice {{ font-style: italic; color: #9988cc; margin-bottom: 14px; font-size: 0.92em; }}
  .text {{ line-height: 1.8; color: #ccc0ee; font-size: 1.05em; }}
  .empty {{ text-align: center; color: #443366; margin-top: 100px; font-size: 1.2em; }}
  
  /* ====== PINK MATRIX RAIN ====== */
  #matrix-canvas {{ position: fixed; top: 0; left: 0; width: 100%; height: 100%; pointer-events: none; z-index: -1; }}
  
  /* ====== 3D PULSE GRID ====== */
  #grid-canvas {{ position: fixed; top: 0; left: 0; width: 100%; height: 100%; pointer-events: none; z-index: -2; }}
  
  /* ====== PARTICLES ====== */
  .particle {{ position: fixed; border-radius: 50%; background: radial-gradient(circle, #ff77aa44 0%, transparent 70%); pointer-events: none; animation: float 8s ease-in-out infinite; }}
  @keyframes float {{ 0%,100% {{ transform: translateY(0) rotate(0deg); opacity: 0.3; }} 50% {{ transform: translateY(-40px) rotate(180deg); opacity: 0.8; }} }}
  
  /* ====== KEY STATUS UI ====== */
  #key-panel {{ position: fixed; top: 20px; right: 20px; background: #0d0b1588; border: 1px solid #5533aa; border-radius: 8px; padding: 12px 16px; z-index: 1000; font-size: 0.75em; }}
  #key-panel .key-row {{ display: flex; align-items: center; gap: 8px; margin: 4px 0; }}
  #key-panel .dot {{ width: 8px; height: 8px; border-radius: 50%; background: #333; }}
  #key-panel .dot.on {{ background: #44ff88; box-shadow: 0 0 8px #44ff88; }}
  #key-panel .dot.off {{ background: #ff4444; }}
  #key-panel button {{ background: #331155; color: #aa88ff; border: none; padding: 4px 10px; border-radius: 4px; cursor: pointer; font-size: 0.9em; margin-top: 8px; }}
  #key-panel button:hover {{ background: #5522aa; }}
  
  .refresh {{ text-align: center; color: #443366; font-size: 0.8em; margin-top: 40px; }}
  .compose {{ position: fixed; bottom: 0; left: 0; right: 0; background: #0d0b15; border-top: 2px solid #5533aa; padding: 16px 20px; display: flex; gap: 10px; align-items: flex-end; }}
  .compose textarea {{ flex: 1; background: #1a1530; color: #d4c8ff; border: 1px solid #5533aa; border-radius: 6px; padding: 10px 14px; font-family: 'Georgia', serif; font-size: 1em; resize: none; height: 56px; outline: none; }}
  .compose textarea:focus {{ border-color: #b08cff; }}
  .compose button {{ background: #5533aa; color: #fff; border: none; border-radius: 6px; padding: 10px 22px; font-size: 1em; cursor: pointer; white-space: nowrap; }}
  .compose button:hover {{ background: #7755cc; }}
  .compose .label {{ color: #aa8833; font-size: 0.85em; white-space: nowrap; align-self: center; }}
  #status {{ font-size: 0.8em; color: #44ccbb; align-self: center; min-width: 60px; }}
  
  /* ====== KEY MODAL ====== */
  #key-modal {{ display: none; position: fixed; top: 0; left: 0; right: 0; bottom: 0; background: #000c; z-index: 2000; align-items: center; justify-content: center; }}
  #key-modal.show {{ display: flex; }}
  #key-modal > div {{ background: #12101a; border: 2px solid #5533aa; border-radius: 12px; padding: 30px; max-width: 500px; width: 90%; }}
  #key-modal h2 {{ color: #b08cff; margin-bottom: 20px; }}
  #key-modal input {{ width: 100%; background: #1a1530; color: #d4c8ff; border: 1px solid #5533aa; padding: 10px; border-radius: 6px; margin-bottom: 12px; font-size: 0.9em; }}
  #key-modal .btn-row {{ display: flex; gap: 10px; margin-top: 16px; }}
  #key-modal button {{ flex: 1; padding: 10px; border-radius: 6px; cursor: pointer; }}
  #key-modal .save-btn {{ background: #44aa55; color: #fff; border: none; }}
  #key-modal .close-btn {{ background: transparent; color: #8877aa; border: 1px solid #5533aa; }}
</style>
</head>
<body>
<!-- VISUAL EFFECTS -->
<canvas id="grid-canvas"></canvas>
<canvas id="matrix-canvas"></canvas>

<!-- KEY STATUS PANEL -->
<div id="key-panel">
  <div style="color:#aa88ff;margin-bottom:8px;">âš¡ KEYS</div>
  <div class="key-row"><span class="dot" id="dot-openrouter"></span><span>OpenRouter</span></div>
  <div class="key-row"><span class="dot" id="dot-copilot"></span><span>Copilot</span></div>
  <div class="key-row"><span class="dot" id="dot-mistral"></span><span>Mistral</span></div>
  <div class="key-row"><span class="dot" id="dot-gemini"></span><span>Gemini</span></div>
  <button onclick="showKeyModal()">Update Keys</button>
</div>

<!-- KEY MODAL -->
<div id="key-modal">
  <div>
    <h2>âš¡ Update API Keys</h2>
    <input type="password" id="key-openrouter" placeholder="OpenRouter API Key">
    <input type="password" id="key-copilot" placeholder="GitHub Copilot Token">
    <input type="password" id="key-mistral" placeholder="Mistral API Key">
    <input type="password" id="key-gemini" placeholder="Gemini API Key">
    <div class="btn-row">
      <button class="save-btn" onclick="saveKeys()">Save Keys</button>
      <button class="close-btn" onclick="hideKeyModal()">Cancel</button>
    </div>
  </div>
</div>

<h1>âœ¦ Aria's Journal âœ¦</h1>
<div class="subtitle">{total} entries &nbsp;Â·&nbsp; refreshes every 15s (pauses while you type)</div>
{entries_or_empty}
<div class="refresh">page refreshes automatically Â· <a href="/" style="color:#5533aa">reload now</a></div>
<div class="compose">
  <span class="label">Craig â†’</span>
  <textarea id="msg" placeholder="Write to Aria... (Enter to send, Shift+Enter for newline)"></textarea>
  <button onclick="sendMsg()">Send</button>
  <span id="status"></span>
</div>
<script>
  document.getElementById('msg').addEventListener('keydown', function(e) {{
    if (e.key === 'Enter' && !e.shiftKey) {{ e.preventDefault(); sendMsg(); }}
  }});
  // Smart auto-refresh: reload page every 15s UNLESS user is typing
  var _typing = false;
  var _typeTimer;
  document.getElementById('msg').addEventListener('input', function() {{
    _typing = true;
    clearTimeout(_typeTimer);
    _typeTimer = setTimeout(function() {{ _typing = false; }}, 5000);
  }});
setInterval(function() {{
    if (!_typing) {{ location.reload(); }}
  }}, 15000);
  function sendMsg() {{
    const ta = document.getElementById('msg');
    const msg = ta.value.trim();
    if (!msg) return;
    const st = document.getElementById('status');
    st.textContent = 'sendingâ€¦';
    fetch('/message', {{
      method: 'POST',
      headers: {{'Content-Type': 'application/json'}},
      body: JSON.stringify({{from: 'Craig', message: msg}})
    }}).then(r => {{
      if (r.ok) {{ st.textContent = 'sent âœ“'; ta.value = ''; setTimeout(() => {{ st.textContent = ''; }}, 3000); }}
      else {{ st.textContent = 'error'; }}
    }}).catch(() => {{ st.textContent = 'error'; }});
  }}
</script>
<script src="/dashboard.js"></script>
</body>
</html>"#);
    assert_eq!(journal_page(0, ""), expected);
    assert!(STATUS_PAGE.starts_with("<html><body"));
}

use sovereign_kernel::journal_page::entry_kind_of;

#[test]
fn entry_kinds_by_type() {
    assert_eq!(entry_kind_of(Some("craig_message")), EntryKind::CraigMessage);
    assert_eq!(entry_kind_of(Some("reply_to_craig")), EntryKind::Reply);
    assert_eq!(entry_kind_of(Some("journal_decision")), EntryKind::Journal);
    assert_eq!(entry_kind_of(None), EntryKind::Journal);
}
