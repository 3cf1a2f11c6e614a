//! The page that the server is used through.

use vstd::prelude::*;

verus! {

/// One page of plain HTML and JavaScript that needs nothing from anywhere else.
pub const INDEX: &'static str =
    "<!doctype html>
<html lang=\"en\">
<head>
<meta charset=\"utf-8\">
<title>ocha</title>
<style>
body { margin: 0; display: flex; height: 100vh; font: 14px sans-serif; }
#side { width: 17em; padding: 1em; background: #f2f2ee; overflow: auto; }
#side input, #side select, #side textarea { width: 100%; box-sizing: border-box; margin-bottom: 6px; }
#side li { cursor: pointer; padding: 2px 0; }
#main { flex: 1; display: flex; flex-direction: column; }
#log { flex: 1; overflow: auto; padding: 1em; white-space: pre-wrap; }
#log div { margin-bottom: 1em; }
#ask { display: none; padding: 1em; background: #fff3cd; }
#bar { display: flex; padding: 1em; }
#bar textarea { flex: 1; }
</style>
</head>
<body>
<div id=\"side\">
<p>state: <b id=\"state\">none</b> <span id=\"link\">offline</span></p>
<form id=\"create\">
<input name=\"backend\" placeholder=\"backend\">
<input name=\"model\" placeholder=\"model\">
<textarea name=\"system\" placeholder=\"system prompt\"></textarea>
<textarea name=\"reminders\" placeholder=\"reminders (JSON)\"></textarea>
<select name=\"approval_mode\"><option>gated</option><option>auto</option></select>
<button>New session</button>
</form>
<ul id=\"list\"></ul>
</div>
<div id=\"main\">
<div id=\"log\"></div>
<div id=\"ask\"><div id=\"what\"></div><button id=\"yes\">Approve</button> <button id=\"no\">Deny</button> <input id=\"why\" placeholder=\"reason\"></div>
<div id=\"bar\"><textarea id=\"prompt\" disabled></textarea><button id=\"send\" disabled>Send</button><button id=\"stop\" disabled>Cancel</button></div>
</div>
<script>
const $ = (id) => document.getElementById(id);
let session = null, source = null, pending = null, live = null;
const api = (method, path, body) => fetch('/api/sessions' + path, { method: method, body: body === undefined ? undefined : JSON.stringify(body) }).then((r) => r.json());
function line(who, text) {
  const d = document.createElement(who === 'tool' ? 'details' : 'div');
  if (who === 'tool') { const s = document.createElement('summary'); s.textContent = 'tool'; d.append(s); }
  const t = document.createElement('span');
  t.textContent = who === 'tool' ? text : who + ': ' + text;
  d.append(t);
  $('log').append(d);
  $('log').scrollTop = $('log').scrollHeight;
  return t;
}
function enter(state) {
  $('state').textContent = state;
  const busy = state === 'generating' || state === 'awaiting_approval';
  $('prompt').disabled = $('send').disabled = state !== 'idle';
  $('stop').disabled = !busy;
  if (state !== 'awaiting_approval') { pending = null; $('ask').style.display = 'none'; }
}
function ask(p) {
  pending = p;
  const q = p.request;
  $('what').textContent = [q.binary].concat(q.args).join(' ') + ' | ' + q.description + ' | timeout ' + q.timeout + ' s | ' + p.remaining_commands + ' left';
  $('ask').style.display = 'block';
}
function show(s) {
  $('log').textContent = '';
  live = null;
  s.messages.forEach((m) => line(m.role, m.content));
  enter(s.state);
  if (s.pending_command) ask(s.pending_command);
}
function open(id) {
  session = id;
  if (source) source.close();
  source = new EventSource('/api/sessions/' + id + '/events');
  source.onopen = () => { $('link').textContent = 'online'; };
  source.onerror = () => { $('link').textContent = 'offline'; };
  const on = (kind, f) => source.addEventListener(kind, (e) => { if (e.data) f(JSON.parse(e.data)); });
  on('ping', () => { $('link').textContent = 'online'; });
  on('snapshot', show);
  on('state', (d) => enter(d.state));
  on('token', (d) => { if (!live) live = line('assistant', ''); live.textContent += d.text; });
  on('reminder', (d) => line('reminder', d.text));
  on('message', (d) => { if (live) live.textContent = d.role + ': ' + d.content; else line(d.role, d.content); live = null; });
  on('command_pending', ask);
  on('command_result', (d) => line('tool', JSON.stringify(d)));
  on('turn_complete', refresh);
  on('error', (d) => line('error', d.message));
}
function refresh() {
  api('GET', '').then((all) => {
    $('list').textContent = '';
    all.forEach((s) => {
      const li = document.createElement('li');
      li.textContent = s.id + ' (' + s.config.backend + ', ' + s.messages + ') ';
      li.onclick = () => open(s.id);
      const x = document.createElement('button');
      x.textContent = 'x';
      x.onclick = (e) => { e.stopPropagation(); api('DELETE', '/' + s.id).then(refresh); };
      li.append(x);
      $('list').append(li);
    });
  });
}
$('create').onsubmit = (e) => {
  e.preventDefault();
  const body = {};
  new FormData(e.target).forEach((v, k) => { if (v) body[k] = k === 'reminders' ? JSON.parse(v) : v; });
  api('POST', '', body).then((s) => { if (s.error) line('error', s.error); else { refresh(); open(s.id); } });
};
$('send').onclick = () => {
  const content = $('prompt').value;
  if (!session || !content) return;
  line('user', content);
  $('prompt').value = '';
  api('POST', '/' + session + '/messages', { content: content }).then((r) => { if (r.error) line('error', r.error); });
};
$('stop').onclick = () => api('POST', '/' + session + '/cancel');
$('yes').onclick = () => pending && api('POST', '/' + session + '/commands/' + pending.cmd_id + '/approve');
$('no').onclick = () => pending && api('POST', '/' + session + '/commands/' + pending.cmd_id + '/deny', { reason: $('why').value });
refresh();
</script>
</body>
</html>
";

} // verus!
