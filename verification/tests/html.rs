use uptime_monitor::dashboard::{DashboardDetail, DashboardRow};
use uptime_monitor::history::CheckResult;
use uptime_monitor::html::{render_24h_bar_html, render_dashboard, render_detail_page};
use uptime_monitor::metrics::Percentage;
use uptime_monitor::template::DASHBOARD_CSS;

#[test]
fn bar_segments() {
    assert_eq!(
        render_24h_bar_html(&[None, Some(true), Some(false)]),
        concat_all(&[
            r#"<div class="uptime-bar" title="Last 24 hours — each segment is 5 minutes">"#,
            r#"<div class="seg gap" style="flex:1"></div>"#,
            r#"<div class="seg up" style="flex:1"></div>"#,
            r#"<div class="seg down" style="flex:1"></div>"#,
            "</div>",
        ])
    );
}

#[test]
fn bar_without_segments() {
    assert_eq!(
        render_24h_bar_html(&[]),
        r#"<div class="uptime-bar" title="Last 24 hours — each segment is 5 minutes"></div>"#
    );
}

fn concat_all(parts: &[&str]) -> String {
    parts.concat()
}

fn page(rows: &str, empty: &str) -> String {
    format!(
        r##"<!DOCTYPE html>
<html lang="en">
<head>
<meta charset="utf-8">
<meta name="viewport" content="width=device-width, initial-scale=1">
<title>Uptime Monitor</title>
<style>{css}</style>
</head>
<body>
  <h1>Uptime Monitor <span class="sub">wasmCloud Component</span></h1>
  <div class="poll-status" id="poll-status">Service polling every 1s &middot; dashboard updating live</div>
  <div class="actions">
    <button class="btn" onclick="fetch('/api/poll',{{method:'POST'}}).then(()=>refresh())">Poll All Now</button>
  </div>
  <table>
    <thead>
      <tr>
        <th>Device</th><th>Status</th><th>Uptime</th>
        <th>Response</th><th>Last 24 Hours</th>
      </tr>
    </thead>
    <tbody id="device-rows">
      {rows}
      {empty}
    </tbody>
  </table>
  <script>
    function barHtml(buckets) {{
      return '<div class="uptime-bar" title="Last 24 hours">' +
        buckets.map(b => '<div class="seg ' +
          (b === null ? 'gap' : b ? 'up' : 'down') +
          '" style="flex:1"></div>').join('') + '</div>';
    }}
    function refresh() {{
      fetch('/api/dashboard-data')
        .then(r => r.json())
        .then(devices => {{
          const tbody = document.getElementById('device-rows');
          if (!devices.length) {{
            tbody.innerHTML = '<tr><td colspan="5" class="empty">No devices registered yet. POST to /api/devices to add one.</td></tr>';
            return;
          }}
          tbody.innerHTML = devices.map(d => `<tr>
            <td><span class="status-dot ${{d.is_up?'up':'down'}}"></span> <a href="/api/dashboard/${{d.id}}">${{d.name}}</a></td>
            <td class="status ${{d.is_up?'up':'down'}}">${{d.is_up?'UP':'DOWN'}}</td>
            <td>${{d.uptime_percentage.toFixed(1)}}%</td>
            <td>${{d.response_time_ms!=null?d.response_time_ms+' ms':'--'}}</td>
            <td>${{barHtml(d.bar)}}</td>
          </tr>`).join('');
        }})
        .catch(() => {{}});
    }}
    setInterval(refresh, 2000);
  </script>
</body>
</html>"##,
        css = DASHBOARD_CSS,
        rows = rows,
        empty = empty,
    )
}

#[test]
fn style_sheet_is_complete() {
    assert_eq!(DASHBOARD_CSS.len(), 3156);
    assert!(DASHBOARD_CSS.starts_with("\n  :root { --bg: #0f172a;"));
}

#[test]
fn dashboard_without_devices() {
    assert_eq!(
        render_dashboard(&vec![], &vec![]),
        page("", r#"<tr><td colspan="5" class="empty">No devices registered yet. POST to /api/devices to add one.</td></tr>"#)
    );
}

#[test]
fn dashboard_with_devices() {
    let bar = vec![Some(true), None];
    let rows = vec![
        DashboardRow {
            id: "nas".to_string(),
            name: "Synology NAS".to_string(),
            is_up: true,
            uptime_percentage: Percentage::Share { part: 285, whole: 288 },
            response_time_ms: Some(12),
            bar: bar.clone(),
        },
        DashboardRow {
            id: "pi".to_string(),
            name: "Raspberry Pi".to_string(),
            is_up: false,
            uptime_percentage: Percentage::Bits(0),
            response_time_ms: None,
            bar: vec![],
        },
    ];
    let row = |status_class: &str,
               id: &str,
               name: &str,
               status_label: &str,
               uptime: &str,
               response_time: &str,
               bar_html: &str| {
        format!(
            r#"<tr>
  <td><span class="status-dot {status_class}"></span> <a href="/api/dashboard/{id}">{name}</a></td>
  <td class="status {status_class}">{status_label}</td>
  <td>{uptime}</td>
  <td>{response_time}</td>
  <td>{bar_html}</td>
</tr>"#
        )
    };
    let expected = row(
        "up",
        "nas",
        "Synology NAS",
        "UP",
        "99.0%",
        "12 ms",
        &render_24h_bar_html(&bar),
    ) + &row("down", "pi", "Raspberry Pi", "DOWN", "0.0%", "--", &render_24h_bar_html(&[]));
    assert_eq!(
        render_dashboard(&rows, &vec!["99.0".to_string(), "0.0".to_string()]),
        page(&expected, "")
    );
}

fn detail(is_up: bool, recent_checks: Vec<CheckResult>) -> DashboardDetail {
    DashboardDetail {
        id: "nas".to_string(),
        name: "Synology NAS".to_string(),
        url: "http://192.168.1.100:5000/".to_string(),
        is_up,
        uptime_24h: Percentage::Bits(0),
        uptime_all: Percentage::Bits(0),
        avg_response_ms: if is_up { Some(34) } else { None },
        checks_24h: 12,
        down_24h: if is_up { 0 } else { 3 },
        consecutive_failures: if is_up { 0 } else { 2 },
        total_checks: 99,
        bar: vec![None, Some(false)],
        recent_checks,
    }
}

#[allow(clippy::too_many_arguments)]
fn detail_page(
    status_class: &str,
    status_label: &str,
    avg_response: &str,
    down_24h: u64,
    down_cls: &str,
    consecutive: u32,
    consec_cls: &str,
    check_rows: &str,
    empty_checks: &str,
) -> String {
    let bar_html = render_24h_bar_html(&[None, Some(false)]);
    format!(
        r##"<!DOCTYPE html>
<html lang="en">
<head>
<meta charset="utf-8">
<meta name="viewport" content="width=device-width, initial-scale=1">
<title>{name} — Uptime Monitor</title>
<style>{css}</style>
</head>
<body>
  <p style="margin-bottom:1rem"><a href="/api/dashboard">&larr; Back to Dashboard</a></p>
  <h1><span class="status-dot {status_class}"></span> {name} <span class="sub">{status_label}</span></h1>
  <p class="mono" style="color:var(--muted);margin-bottom:1.5rem">{url}</p>

  <div class="stat-grid">
    <div class="stat">
      <div class="label">Current Status</div>
      <div class="value {status_class}">{status_label}</div>
    </div>
    <div class="stat">
      <div class="label">Uptime (24h)</div>
      <div class="value">{uptime_24h:.1}%</div>
    </div>
    <div class="stat">
      <div class="label">Uptime (all time)</div>
      <div class="value">{uptime_all:.1}%</div>
    </div>
    <div class="stat">
      <div class="label">Avg Response (24h)</div>
      <div class="value">{avg_response}</div>
    </div>
    <div class="stat">
      <div class="label">Checks (24h)</div>
      <div class="value">{checks_24h}</div>
    </div>
    <div class="stat">
      <div class="label">Failures (24h)</div>
      <div class="value {down_cls}">{down_24h}</div>
    </div>
    <div class="stat">
      <div class="label">Consec. Failures</div>
      <div class="value {consec_cls}">{consecutive}</div>
    </div>
    <div class="stat">
      <div class="label">Total Checks</div>
      <div class="value">{total_checks}</div>
    </div>
  </div>

  <div class="card">
    <h3 style="margin-bottom:0.5rem;font-size:0.9rem">Last 24 Hours</h3>
    <div class="detail-bar-container">
      <div id="detail-bar">{bar_html}</div>
      <div class="detail-bar-labels">
        <span>24h ago</span>
        <span>Now</span>
      </div>
    </div>
  </div>

  <div class="card">
    <h3 style="margin-bottom:0.5rem;font-size:0.9rem">Recent Checks</h3>
    <table class="history-table">
      <thead>
        <tr><th>Time</th><th>Status</th><th>Code</th><th>Response</th><th>Error</th></tr>
      </thead>
      <tbody id="checks-body">
        {check_rows}
        {empty_checks}
      </tbody>
    </table>
  </div>

  <script>
    const deviceId = '{id}';
    function barHtml(buckets) {{
      return '<div class="uptime-bar" title="Last 24 hours">' +
        buckets.map(b => '<div class="seg ' +
          (b === null ? 'gap' : b ? 'up' : 'down') +
          '" style="flex:1"></div>').join('') + '</div>';
    }}
    function refresh() {{
      fetch('/api/dashboard-data/' + deviceId)
        .then(r => r.json())
        .then(d => {{
          // Update status dot + label
          document.querySelector('h1 .status-dot').className = 'status-dot ' + (d.is_up ? 'up' : 'down');
          document.querySelector('h1 .sub').textContent = d.is_up ? 'UP' : 'DOWN';
          document.querySelector('h1 .sub').className = 'sub status ' + (d.is_up ? 'up' : 'down');
          // Update stat values
          const vals = document.querySelectorAll('.stat .value');
          vals[0].textContent = d.is_up ? 'UP' : 'DOWN';
          vals[0].className = 'value ' + (d.is_up ? 'up' : 'down');
          vals[1].textContent = d.uptime_24h.toFixed(1) + '%';
          vals[2].textContent = d.uptime_all.toFixed(1) + '%';
          vals[3].textContent = d.avg_response_ms != null ? d.avg_response_ms + ' ms' : '--';
          vals[4].textContent = d.checks_24h;
          vals[5].textContent = d.down_24h;
          vals[5].className = 'value' + (d.down_24h > 0 ? ' down' : '');
          vals[6].textContent = d.consecutive_failures;
          vals[6].className = 'value' + (d.consecutive_failures > 0 ? ' down' : '');
          vals[7].textContent = d.total_checks;
          // Update bar
          document.getElementById('detail-bar').innerHTML = barHtml(d.bar);
          // Update recent checks table
          const tbody = document.getElementById('checks-body');
          if (!d.recent_checks.length) {{
            tbody.innerHTML = '<tr><td colspan="5" class="empty">No checks recorded yet.</td></tr>';
          }} else {{
            tbody.innerHTML = d.recent_checks.map(c => `<tr>
              <td class="mono">${{c.timestamp}}</td>
              <td class="status ${{c.is_up?'up':'down'}}">${{c.is_up?'UP':'DOWN'}}</td>
              <td>${{c.status_code!=null?c.status_code:'--'}}</td>
              <td>${{c.response_time_ms!=null?c.response_time_ms+' ms':'--'}}</td>
              <td class="mono" style="max-width:300px;overflow:hidden;text-overflow:ellipsis">${{c.error||'--'}}</td>
            </tr>`).join('');
          }}
        }})
        .catch(() => {{}});
    }}
    setInterval(refresh, 2000);
  </script>
</body>
</html>"##,
        css = DASHBOARD_CSS,
        name = "Synology NAS",
        url = "http://192.168.1.100:5000/",
        id = "nas",
        uptime_24h = 75.04,
        uptime_all = 98.96,
        checks_24h = 12,
        total_checks = 99,
    )
}

#[test]
fn detail_page_of_a_device_that_is_up() {
    assert_eq!(
        render_detail_page(&detail(true, vec![]), "75.0", "99.0"),
        detail_page(
            "up",
            "UP",
            "34 ms",
            0,
            "",
            0,
            "",
            "",
            r#"<tr><td colspan="5" class="empty">No checks recorded yet.</td></tr>"#
        )
    );
}

#[test]
fn detail_page_of_a_device_that_is_down() {
    let checks = vec![
        CheckResult {
            epoch_secs: 2,
            timestamp: "T2".to_string(),
            is_up: false,
            status_code: None,
            response_time_ms: None,
            error: Some("request failed: x".to_string()),
        },
        CheckResult {
            epoch_secs: 1,
            timestamp: "T1".to_string(),
            is_up: true,
            status_code: Some(200),
            response_time_ms: Some(7),
            error: None,
        },
    ];
    let row = |ts: &str, cls: &str, label: &str, code: &str, rt: &str, err: &str| {
        format!(
            r#"<tr>
  <td class="mono">{ts}</td>
  <td class="status {cls}">{label}</td>
  <td>{code}</td>
  <td>{rt}</td>
  <td class="mono" style="max-width:300px;overflow:hidden;text-overflow:ellipsis">{err}</td>
</tr>"#
        )
    };
    let rows = row("T2", "down", "DOWN", "--", "--", "request failed: x")
        + &row("T1", "up", "UP", "200", "7 ms", "--");
    assert_eq!(
        render_detail_page(&detail(false, checks), "75.0", "99.0"),
        detail_page("down", "DOWN", "--", 3, "down", 2, "down", &rows, "")
    );
}
