//! The fixed parts of the HTML pages.

use vstd::prelude::*;

verus! {

/// The style sheet of all pages.
pub const DASHBOARD_CSS: &'static str = r##"
  :root { --bg: #0f172a; --card: #1e293b; --border: #334155;
           --text: #e2e8f0; --muted: #94a3b8; --up: #22c55e; --down: #ef4444;
           --accent: #3b82f6; }
  * { margin: 0; padding: 0; box-sizing: border-box; }
  body { background: var(--bg); color: var(--text); font-family: system-ui, sans-serif; padding: 2rem; }
  a { color: var(--accent); text-decoration: none; }
  a:hover { text-decoration: underline; }
  h1 { font-size: 1.5rem; margin-bottom: 0.25rem; }
  h1 .sub { color: var(--muted); font-weight: 400; font-size: 0.9rem; margin-left: 0.5rem; }
  .poll-status { color: var(--muted); font-size: 0.8rem; margin-bottom: 1rem; }
  table { width: 100%; border-collapse: collapse; background: var(--card); border-radius: 8px; overflow: hidden; }
  th, td { padding: 0.75rem 1rem; text-align: left; border-bottom: 1px solid var(--border); }
  th { background: var(--border); font-size: 0.75rem; text-transform: uppercase; letter-spacing: 0.05em; color: var(--muted); }
  .mono { font-family: "JetBrains Mono", monospace; font-size: 0.85rem; }
  .status-dot { display: inline-block; width: 8px; height: 8px; border-radius: 50%; margin-right: 6px; }
  .status-dot.up { background: var(--up); box-shadow: 0 0 6px var(--up); }
  .status-dot.down { background: var(--down); box-shadow: 0 0 6px var(--down); }
  .status.up { color: var(--up); font-weight: 600; }
  .status.down { color: var(--down); font-weight: 600; }
  .empty { text-align: center; padding: 3rem; color: var(--muted); }
  .actions { margin-bottom: 1rem; display: flex; gap: 0.75rem; align-items: center; }
  .btn { background: var(--accent); color: #fff; border: none; padding: 0.5rem 1rem;
         border-radius: 6px; cursor: pointer; font-size: 0.85rem; }
  .btn:hover { background: #2563eb; }
  .btn.sm { padding: 0.3rem 0.6rem; font-size: 0.75rem; }
  .uptime-bar { display: flex; height: 24px; border-radius: 4px; overflow: hidden; background: var(--border); width: 100%; min-width: 200px; }
  .uptime-bar .seg { min-width: 1px; }
  .uptime-bar .seg.up { background: var(--up); }
  .uptime-bar .seg.down { background: var(--down); }
  .uptime-bar .seg.gap { background: var(--border); }
  .card { background: var(--card); border-radius: 8px; padding: 1.5rem; margin-bottom: 1rem; border: 1px solid var(--border); }
  .stat-grid { display: grid; grid-template-columns: repeat(auto-fit, minmax(150px, 1fr)); gap: 1rem; margin-bottom: 1.5rem; }
  .stat { background: var(--bg); border-radius: 6px; padding: 1rem; text-align: center; }
  .stat .label { font-size: 0.7rem; text-transform: uppercase; color: var(--muted); letter-spacing: 0.05em; margin-bottom: 0.25rem; }
  .stat .value { font-size: 1.4rem; font-weight: 700; }
  .stat .value.up { color: var(--up); }
  .stat .value.down { color: var(--down); }
  .history-table { margin-top: 1rem; }
  .history-table td { font-size: 0.85rem; padding: 0.4rem 0.75rem; }
  .detail-bar-container { margin: 1.5rem 0; }
  .detail-bar-container .uptime-bar { height: 40px; border-radius: 6px; }
  .detail-bar-labels { display: flex; justify-content: space-between; font-size: 0.7rem; color: var(--muted); margin-top: 0.25rem; }
"##;

/// The start of the main page, up to the style sheet.
pub const DASHBOARD_HEAD: &'static str = r##"<!DOCTYPE html>
<html lang="en">
<head>
<meta charset="utf-8">
<meta name="viewport" content="width=device-width, initial-scale=1">
<title>Uptime Monitor</title>
<style>"##;

/// From the style sheet of the main page to its rows.
pub const DASHBOARD_BODY: &'static str = r##"</style>
</head>
<body>
  <h1>Uptime Monitor <span class="sub">wasmCloud Component</span></h1>
  <div class="poll-status" id="poll-status">Service polling every 1s &middot; dashboard updating live</div>
  <div class="actions">
    <button class="btn" onclick="fetch('/api/poll',{method:'POST'}).then(()=>refresh())">Poll All Now</button>
  </div>
  <table>
    <thead>
      <tr>
        <th>Device</th><th>Status</th><th>Uptime</th>
        <th>Response</th><th>Last 24 Hours</th>
      </tr>
    </thead>
    <tbody id="device-rows">
      "##;

/// From the rows of the main page to the note that there are none.
pub const DASHBOARD_EMPTY: &'static str = r##"
      "##;

/// From the rows of the main page to its end.
pub const DASHBOARD_TAIL: &'static str = r##"
    </tbody>
  </table>
  <script>
    function barHtml(buckets) {
      return '<div class="uptime-bar" title="Last 24 hours">' +
        buckets.map(b => '<div class="seg ' +
          (b === null ? 'gap' : b ? 'up' : 'down') +
          '" style="flex:1"></div>').join('') + '</div>';
    }
    function refresh() {
      fetch('/api/dashboard-data')
        .then(r => r.json())
        .then(devices => {
          const tbody = document.getElementById('device-rows');
          if (!devices.length) {
            tbody.innerHTML = '<tr><td colspan="5" class="empty">No devices registered yet. POST to /api/devices to add one.</td></tr>';
            return;
          }
          tbody.innerHTML = devices.map(d => `<tr>
            <td><span class="status-dot ${d.is_up?'up':'down'}"></span> <a href="/api/dashboard/${d.id}">${d.name}</a></td>
            <td class="status ${d.is_up?'up':'down'}">${d.is_up?'UP':'DOWN'}</td>
            <td>${d.uptime_percentage.toFixed(1)}%</td>
            <td>${d.response_time_ms!=null?d.response_time_ms+' ms':'--'}</td>
            <td>${barHtml(d.bar)}</td>
          </tr>`).join('');
        })
        .catch(() => {});
    }
    setInterval(refresh, 2000);
  </script>
</body>
</html>"##;

/// The note that no devices are registered.
pub const NO_DEVICES: &'static str = r##"<tr><td colspan="5" class="empty">No devices registered yet. POST to /api/devices to add one.</td></tr>"##;

/// The note that no checks are recorded.
pub const NO_CHECKS: &'static str = r##"<tr><td colspan="5" class="empty">No checks recorded yet.</td></tr>"##;

/// The start of the detail page, up to the name in its title.
pub const DETAIL_HEAD: &'static str = r##"<!DOCTYPE html>
<html lang="en">
<head>
<meta charset="utf-8">
<meta name="viewport" content="width=device-width, initial-scale=1">
<title>"##;

/// From the name in the title to the style sheet.
pub const DETAIL_TITLE: &'static str = r##" — Uptime Monitor</title>
<style>"##;

/// From the style sheet to the class of the status dot.
pub const DETAIL_DOT: &'static str = r##"</style>
</head>
<body>
  <p style="margin-bottom:1rem"><a href="/api/dashboard">&larr; Back to Dashboard</a></p>
  <h1><span class="status-dot "##;

/// From the class of the status dot to the name.
pub const DETAIL_NAME: &'static str = r##""></span> "##;

/// From the name to the status label.
pub const DETAIL_SUB: &'static str = r##" <span class="sub">"##;

/// From the status label to the URL.
pub const DETAIL_URL: &'static str = r##"</span></h1>
  <p class="mono" style="color:var(--muted);margin-bottom:1.5rem">"##;

/// From the URL to the class of the current status.
pub const DETAIL_STATUS: &'static str = r##"</p>

  <div class="stat-grid">
    <div class="stat">
      <div class="label">Current Status</div>
      <div class="value "##;

/// From the current status to the uptime of the last 24 hours.
pub const DETAIL_UPTIME_24H: &'static str = r##"</div>
    </div>
    <div class="stat">
      <div class="label">Uptime (24h)</div>
      <div class="value">"##;

/// From the uptime of the last 24 hours to that of all time.
pub const DETAIL_UPTIME_ALL: &'static str = r##"%</div>
    </div>
    <div class="stat">
      <div class="label">Uptime (all time)</div>
      <div class="value">"##;

/// From the uptime of all time to the mean response time.
pub const DETAIL_AVG: &'static str = r##"%</div>
    </div>
    <div class="stat">
      <div class="label">Avg Response (24h)</div>
      <div class="value">"##;

/// From the mean response time to the number of checks.
pub const DETAIL_CHECKS: &'static str = r##"</div>
    </div>
    <div class="stat">
      <div class="label">Checks (24h)</div>
      <div class="value">"##;

/// From the number of checks to the class of the number of failures.
pub const DETAIL_FAILURES: &'static str = r##"</div>
    </div>
    <div class="stat">
      <div class="label">Failures (24h)</div>
      <div class="value "##;

/// From the number of failures to the class of the number of failures in a row.
pub const DETAIL_CONSECUTIVE: &'static str = r##"</div>
    </div>
    <div class="stat">
      <div class="label">Consec. Failures</div>
      <div class="value "##;

/// From the number of failures in a row to the number of all checks.
pub const DETAIL_TOTAL: &'static str = r##"</div>
    </div>
    <div class="stat">
      <div class="label">Total Checks</div>
      <div class="value">"##;

/// From the number of all checks to the 24 hour bar.
pub const DETAIL_BAR: &'static str = r##"</div>
    </div>
  </div>

  <div class="card">
    <h3 style="margin-bottom:0.5rem;font-size:0.9rem">Last 24 Hours</h3>
    <div class="detail-bar-container">
      <div id="detail-bar">"##;

/// From the 24 hour bar to the rows of the recent checks.
pub const DETAIL_RECENT: &'static str = r##"</div>
      <div class="detail-bar-labels">
        <span>24h ago</span>
        <span>Now</span>
      </div>
    </div>
  </div>

  <div class="card">
    <h3 style="margin-bottom:0.5rem;font-size:0.9rem">Recent Checks</h3>
    <table class="history-table">
      <thead>
        <tr><th>Time</th><th>Status</th><th>Code</th><th>Response</th><th>Error</th></tr>
      </thead>
      <tbody id="checks-body">
        "##;

/// From the rows of the recent checks to the note that there are none.
pub const DETAIL_EMPTY: &'static str = r##"
        "##;

/// From the list of recent checks to the id in the script.
pub const DETAIL_ID: &'static str = r##"
      </tbody>
    </table>
  </div>

  <script>
    const deviceId = '"##;

/// From the id in the script to the end of the page.
pub const DETAIL_SCRIPT: &'static str = r##"';
    function barHtml(buckets) {
      return '<div class="uptime-bar" title="Last 24 hours">' +
        buckets.map(b => '<div class="seg ' +
          (b === null ? 'gap' : b ? 'up' : 'down') +
          '" style="flex:1"></div>').join('') + '</div>';
    }
    function refresh() {
      fetch('/api/dashboard-data/' + deviceId)
        .then(r => r.json())
        .then(d => {
          // Update status dot + label
          document.querySelector('h1 .status-dot').className = 'status-dot ' + (d.is_up ? 'up' : 'down');
          document.querySelector('h1 .sub').textContent = d.is_up ? 'UP' : 'DOWN';
          document.querySelector('h1 .sub').className = 'sub status ' + (d.is_up ? 'up' : 'down');
          // Update stat values
          const vals = document.querySelectorAll('.stat .value');
          vals[0].textContent = d.is_up ? 'UP' : 'DOWN';
          vals[0].className = 'value ' + (d.is_up ? 'up' : 'down');
          vals[1].textContent = d.uptime_24h.toFixed(1) + '%';
          vals[2].textContent = d.uptime_all.toFixed(1) + '%';
          vals[3].textContent = d.avg_response_ms != null ? d.avg_response_ms + ' ms' : '--';
          vals[4].textContent = d.checks_24h;
          vals[5].textContent = d.down_24h;
          vals[5].className = 'value' + (d.down_24h > 0 ? ' down' : '');
          vals[6].textContent = d.consecutive_failures;
          vals[6].className = 'value' + (d.consecutive_failures > 0 ? ' down' : '');
          vals[7].textContent = d.total_checks;
          // Update bar
          document.getElementById('detail-bar').innerHTML = barHtml(d.bar);
          // Update recent checks table
          const tbody = document.getElementById('checks-body');
          if (!d.recent_checks.length) {
            tbody.innerHTML = '<tr><td colspan="5" class="empty">No checks recorded yet.</td></tr>';
          } else {
            tbody.innerHTML = d.recent_checks.map(c => `<tr>
              <td class="mono">${c.timestamp}</td>
              <td class="status ${c.is_up?'up':'down'}">${c.is_up?'UP':'DOWN'}</td>
              <td>${c.status_code!=null?c.status_code:'--'}</td>
              <td>${c.response_time_ms!=null?c.response_time_ms+' ms':'--'}</td>
              <td class="mono" style="max-width:300px;overflow:hidden;text-overflow:ellipsis">${c.error||'--'}</td>
            </tr>`).join('');
          }
        })
        .catch(() => {});
    }
    setInterval(refresh, 2000);
  </script>
</body>
</html>"##;

} // verus!
