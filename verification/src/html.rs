//! The HTML pages.

use vstd::prelude::*;
use vstd::string::*;

use crate::dashboard::{DashboardDetail, DashboardDetailView, DashboardRow, DashboardRowView};
use crate::history::{CheckResult, CheckView};
use crate::{history, template, text};

verus! {

/// The class of the parts of a page that show whether a device is up.
pub open spec fn status_class(is_up: bool) -> Seq<char> {
    if is_up {
        "up"@
    } else {
        "down"@
    }
}

/// The label that tells whether a device is up.
pub open spec fn status_label(is_up: bool) -> Seq<char> {
    if is_up {
        "UP"@
    } else {
        "DOWN"@
    }
}

/// A response time for display.
pub open spec fn duration_text(ms: Option<u64>) -> Seq<char> {
    match ms {
        Some(ms) => text::decimal(ms as nat) + " ms"@,
        None => "--"@,
    }
}

/// A status code for display.
pub open spec fn code_text(code: Option<u16>) -> Seq<char> {
    match code {
        Some(code) => text::decimal(code as nat),
        None => "--"@,
    }
}

/// An error for display.
pub open spec fn error_text(error: Option<Seq<char>>) -> Seq<char> {
    match error {
        Some(error) => error,
        None => "--"@,
    }
}

/// The class of a number of failures.
pub open spec fn failure_class(failures: nat) -> Seq<char> {
    if failures > 0 {
        "down"@
    } else {
        ""@
    }
}

/// A segment of the 24 hour bar.
pub open spec fn segment_html(b: Option<bool>) -> Seq<char> {
    "<div class=\""@ + (match b {
        None => "seg gap"@,
        Some(up) => if up {
            "seg up"@
        } else {
            "seg down"@
        },
    }) + "\" style=\"flex:1\"></div>"@
}

/// The segments of the 24 hour bar.
pub open spec fn segments_html(buckets: Seq<Option<bool>>) -> Seq<char>
    decreases buckets.len(),
{
    if buckets.len() == 0 {
        Seq::empty()
    } else {
        segments_html(buckets.drop_last()) + segment_html(buckets.last())
    }
}

/// The 24 hour bar.
pub open spec fn bar_html(buckets: Seq<Option<bool>>) -> Seq<char> {
    "<div class=\"uptime-bar\" title=\"Last 24 hours — each segment is 5 minutes\">"@
        + segments_html(buckets) + "</div>"@
}

/// A row of the main page; `uptime` is the number shown as the device's uptime.
pub open spec fn row_html(row: DashboardRowView, uptime: Seq<char>) -> Seq<char> {
    "<tr>\n  <td><span class=\"status-dot "@ + status_class(row.is_up)
        + "\"></span> <a href=\"/api/dashboard/"@ + row.id + "\">"@ + row.name
        + "</a></td>\n  <td class=\"status "@ + status_class(row.is_up) + "\">"@ + status_label(
        row.is_up,
    ) + "</td>\n  <td>"@ + uptime + "%"@ + "</td>\n  <td>"@ + duration_text(row.response_time_ms)
        + "</td>\n  <td>"@ + bar_html(row.bar) + "</td>\n</tr>"@
}

/// The rows of the main page.
pub open spec fn rows_html(rows: Seq<DashboardRowView>, uptimes: Seq<Seq<char>>) -> Seq<char>
    decreases rows.len(),
{
    if rows.len() == 0 {
        Seq::empty()
    } else {
        rows_html(rows.drop_last(), uptimes.drop_last()) + row_html(rows.last(), uptimes.last())
    }
}

/// The main page.
pub open spec fn dashboard_html(rows: Seq<DashboardRowView>, uptimes: Seq<Seq<char>>) -> Seq<char> {
    template::DASHBOARD_HEAD@ + template::DASHBOARD_CSS@ + template::DASHBOARD_BODY@ + rows_html(
        rows,
        uptimes,
    ) + template::DASHBOARD_EMPTY@ + (if rows.len() == 0 {
        template::NO_DEVICES@
    } else {
        ""@
    }) + template::DASHBOARD_TAIL@
}

/// A row of the list of recent checks.
pub open spec fn check_html(check: CheckView) -> Seq<char> {
    "<tr>\n  <td class=\"mono\">"@ + check.timestamp + "</td>\n  <td class=\"status "@
        + status_class(check.is_up) + "\">"@ + status_label(check.is_up) + "</td>\n  <td>"@
        + code_text(check.status_code) + "</td>\n  <td>"@ + duration_text(check.response_time_ms)
        + "</td>\n  <td class=\"mono\" style=\"max-width:300px;overflow:hidden;text-overflow:ellipsis\">"@
        + error_text(check.error) + "</td>\n</tr>"@
}

/// The rows of the list of recent checks.
pub open spec fn checks_html(checks: Seq<CheckView>) -> Seq<char>
    decreases checks.len(),
{
    if checks.len() == 0 {
        Seq::empty()
    } else {
        checks_html(checks.drop_last()) + check_html(checks.last())
    }
}

/// The figures on the detail page.
pub open spec fn figures_html(
    d: DashboardDetailView,
    uptime_24h: Seq<char>,
    uptime_all: Seq<char>,
) -> Seq<char> {
    template::DETAIL_STATUS@ + status_class(d.is_up) + "\">"@ + status_label(d.is_up)
        + template::DETAIL_UPTIME_24H@ + uptime_24h + template::DETAIL_UPTIME_ALL@ + uptime_all
        + template::DETAIL_AVG@ + duration_text(d.avg_response_ms) + template::DETAIL_CHECKS@
        + text::decimal(d.checks_24h as nat) + template::DETAIL_FAILURES@ + failure_class(
        d.down_24h as nat,
    ) + "\">"@ + text::decimal(d.down_24h as nat) + template::DETAIL_CONSECUTIVE@ + failure_class(
        d.consecutive_failures as nat,
    ) + "\">"@ + text::decimal(d.consecutive_failures as nat) + template::DETAIL_TOTAL@
        + text::decimal(d.total_checks as nat)
}

/// The detail page; `uptime_24h` and `uptime_all` are the numbers shown as the device's uptimes.
pub open spec fn detail_html(
    d: DashboardDetailView,
    uptime_24h: Seq<char>,
    uptime_all: Seq<char>,
) -> Seq<char> {
    template::DETAIL_HEAD@ + d.name + template::DETAIL_TITLE@ + template::DASHBOARD_CSS@
        + template::DETAIL_DOT@ + status_class(d.is_up) + template::DETAIL_NAME@ + d.name
        + template::DETAIL_SUB@ + status_label(d.is_up) + template::DETAIL_URL@ + d.url
        + figures_html(d, uptime_24h, uptime_all) + template::DETAIL_BAR@ + bar_html(d.bar)
        + template::DETAIL_RECENT@ + checks_html(d.recent_checks) + template::DETAIL_EMPTY@ + (
    if d.recent_checks.len() == 0 {
        template::NO_CHECKS@
    } else {
        ""@
    }) + template::DETAIL_ID@ + d.id + template::DETAIL_SCRIPT@
}

/// The class of the parts of a page that show whether a device is up.
fn class_of(is_up: bool) -> (r: &'static str)
    ensures
        r@ == status_class(is_up),
{
    if is_up {
        "up"
    } else {
        "down"
    }
}

/// The label that tells whether a device is up.
fn label_of(is_up: bool) -> (r: &'static str)
    ensures
        r@ == status_label(is_up),
{
    if is_up {
        "UP"
    } else {
        "DOWN"
    }
}

/// The class of a number of failures.
fn class_of_failures(failures: u64) -> (r: &'static str)
    ensures
        r@ == failure_class(failures as nat),
{
    if failures > 0 {
        "down"
    } else {
        ""
    }
}

/// Appends a response time to `out`.
fn push_duration(out: &mut String, ms: Option<u64>)
    ensures
        final(out)@ == old(out)@ + duration_text(ms),
{
    match ms {
        Some(ms) => {
            text::push_decimal(out, ms);
            out.append(" ms");
            assert(out@ =~= old(out)@ + duration_text(Some(ms)));
        },
        None => {
            out.append("--");
        },
    }
}

/// Appends the 24 hour bar to `out`.
fn push_bar(out: &mut String, buckets: &[Option<bool>])
    ensures
        final(out)@ == old(out)@ + bar_html(buckets@),
{
    out.append("<div class=\"uptime-bar\" title=\"Last 24 hours — each segment is 5 minutes\">");
    let ghost head = out@;
    let mut i: usize = 0;
    assert(head =~= head + segments_html(buckets@.take(0)));
    while i < buckets.len()
        invariant
            i <= buckets@.len(),
            out@ == head + segments_html(buckets@.take(i as int)),
        decreases buckets@.len() - i,
    {
        let ghost before = out@;
        let class = match buckets[i] {
            None => "seg gap",
            Some(up) => if up {
                "seg up"
            } else {
                "seg down"
            },
        };
        out.append("<div class=\"");
        out.append(class);
        out.append("\" style=\"flex:1\"></div>");
        proof {
            assert(out@ =~= before + segment_html(buckets@[i as int]));
            assert(buckets@.take(i + 1).drop_last() == buckets@.take(i as int));
            assert(out@ =~= head + segments_html(buckets@.take(i + 1)));
        }
        i = i + 1;
    }
    assert(buckets@.take(i as int) == buckets@);
    out.append("</div>");
    assert(out@ =~= old(out)@ + bar_html(buckets@));
}

/// Render a 24-hour status bar as HTML from precomputed buckets.
pub fn render_24h_bar_html(buckets: &[Option<bool>]) -> (r: String)
    ensures
        r@ == bar_html(buckets@),
{
    let mut html = String::new();
    push_bar(&mut html, buckets);
    assert(html@ =~= bar_html(buckets@));
    html
}

/// Appends a row of the main page to `out`.
fn push_row(out: &mut String, row: &DashboardRow, uptime: &str)
    ensures
        final(out)@ == old(out)@ + row_html(row@, uptime@),
{
    let mut html = "<tr>\n  <td><span class=\"status-dot ".to_owned();
    html.append(class_of(row.is_up));
    html.append("\"></span> <a href=\"/api/dashboard/");
    html.append(row.id.as_str());
    html.append("\">");
    html.append(row.name.as_str());
    html.append("</a></td>\n  <td class=\"status ");
    html.append(class_of(row.is_up));
    html.append("\">");
    html.append(label_of(row.is_up));
    html.append("</td>\n  <td>");
    html.append(uptime);
    html.append("%");
    html.append("</td>\n  <td>");
    push_duration(&mut html, row.response_time_ms);
    html.append("</td>\n  <td>");
    push_bar(&mut html, row.bar.as_slice());
    html.append("</td>\n</tr>");
    out.append(html.as_str());
}

/// The rows `rows` as they appear in contracts.
pub open spec fn row_views(rows: Seq<DashboardRow>) -> Seq<DashboardRowView> {
    rows.map_values(|r: DashboardRow| r@)
}

/// Renders the main page; `uptimes` are the numbers shown as the devices' uptimes.
pub fn render_dashboard(rows: &Vec<DashboardRow>, uptimes: &Vec<String>) -> (r: String)
    requires
        rows@.len() == uptimes@.len(),
    ensures
        r@ == dashboard_html(row_views(rows@), text::texts(uptimes@)),
{
    let mut html = template::DASHBOARD_HEAD.to_owned();
    html.append(template::DASHBOARD_CSS);
    html.append(template::DASHBOARD_BODY);
    let ghost head = html@;
    let ghost views = row_views(rows@);
    let ghost texts = text::texts(uptimes@);
    let mut i: usize = 0;
    assert(head =~= head + rows_html(views.take(0), texts.take(0)));
    while i < rows.len()
        invariant
            i <= rows@.len(),
            rows@.len() == uptimes@.len(),
            views == row_views(rows@),
            texts == text::texts(uptimes@),
            html@ == head + rows_html(views.take(i as int), texts.take(i as int)),
        decreases rows@.len() - i,
    {
        push_row(&mut html, &rows[i], uptimes[i].as_str());
        proof {
            assert(views.take(i + 1).drop_last() == views.take(i as int));
            assert(texts.take(i + 1).drop_last() == texts.take(i as int));
            assert(html@ =~= head + rows_html(views.take(i + 1), texts.take(i + 1)));
        }
        i = i + 1;
    }
    assert(views.take(i as int) == views);
    assert(texts.take(i as int) == texts);
    html.append(template::DASHBOARD_EMPTY);
    html.append(
        if rows.len() == 0 {
            template::NO_DEVICES
        } else {
            ""
        },
    );
    html.append(template::DASHBOARD_TAIL);
    html
}

/// Appends a row of the list of recent checks to `out`.
fn push_check(out: &mut String, check: &CheckResult)
    ensures
        final(out)@ == old(out)@ + check_html(check@),
{
    let mut html = "<tr>\n  <td class=\"mono\">".to_owned();
    html.append(check.timestamp.as_str());
    html.append("</td>\n  <td class=\"status ");
    html.append(class_of(check.is_up));
    html.append("\">");
    html.append(label_of(check.is_up));
    html.append("</td>\n  <td>");
    match check.status_code {
        Some(code) => {
            text::push_decimal(&mut html, code as u64);
        },
        None => {
            html.append("--");
        },
    }
    html.append("</td>\n  <td>");
    push_duration(&mut html, check.response_time_ms);
    html.append(
        "</td>\n  <td class=\"mono\" style=\"max-width:300px;overflow:hidden;text-overflow:ellipsis\">",
    );
    match &check.error {
        Some(error) => {
            html.append(error.as_str());
        },
        None => {
            html.append("--");
        },
    }
    html.append("</td>\n</tr>");
    out.append(html.as_str());
}

/// Appends the rows of the list of recent checks to `out`.
fn push_checks(out: &mut String, checks: &Vec<CheckResult>)
    ensures
        final(out)@ == old(out)@ + checks_html(history::check_views(checks@)),
{
    let ghost head = out@;
    let ghost views = history::check_views(checks@);
    let mut i: usize = 0;
    assert(head =~= head + checks_html(views.take(0)));
    while i < checks.len()
        invariant
            i <= checks@.len(),
            views == history::check_views(checks@),
            out@ == head + checks_html(views.take(i as int)),
        decreases checks@.len() - i,
    {
        push_check(out, &checks[i]);
        proof {
            assert(views.take(i + 1).drop_last() == views.take(i as int));
            assert(out@ =~= head + checks_html(views.take(i + 1)));
        }
        i = i + 1;
    }
    assert(views.take(i as int) == views);
}

/// Appends the figures on the detail page to `out`.
fn push_figures(out: &mut String, d: &DashboardDetail, uptime_24h: &str, uptime_all: &str)
    ensures
        final(out)@ == old(out)@ + figures_html(d@, uptime_24h@, uptime_all@),
{
    let mut html = template::DETAIL_STATUS.to_owned();
    html.append(class_of(d.is_up));
    html.append("\">");
    html.append(label_of(d.is_up));
    html.append(template::DETAIL_UPTIME_24H);
    html.append(uptime_24h);
    html.append(template::DETAIL_UPTIME_ALL);
    html.append(uptime_all);
    html.append(template::DETAIL_AVG);
    push_duration(&mut html, d.avg_response_ms);
    html.append(template::DETAIL_CHECKS);
    text::push_decimal(&mut html, d.checks_24h);
    html.append(template::DETAIL_FAILURES);
    html.append(class_of_failures(d.down_24h));
    html.append("\">");
    text::push_decimal(&mut html, d.down_24h);
    html.append(template::DETAIL_CONSECUTIVE);
    html.append(class_of_failures(d.consecutive_failures as u64));
    html.append("\">");
    text::push_decimal(&mut html, d.consecutive_failures as u64);
    html.append(template::DETAIL_TOTAL);
    text::push_decimal(&mut html, d.total_checks);
    out.append(html.as_str());
}

/// Renders the detail page; `uptime_24h` and `uptime_all` are the numbers shown as the device's
/// uptimes.
pub fn render_detail_page(detail: &DashboardDetail, uptime_24h: &str, uptime_all: &str) -> (r:
    String)
    ensures
        r@ == detail_html(detail@, uptime_24h@, uptime_all@),
{
    let mut html = template::DETAIL_HEAD.to_owned();
    html.append(detail.name.as_str());
    html.append(template::DETAIL_TITLE);
    html.append(template::DASHBOARD_CSS);
    html.append(template::DETAIL_DOT);
    html.append(class_of(detail.is_up));
    html.append(template::DETAIL_NAME);
    html.append(detail.name.as_str());
    html.append(template::DETAIL_SUB);
    html.append(label_of(detail.is_up));
    html.append(template::DETAIL_URL);
    html.append(detail.url.as_str());
    push_figures(&mut html, detail, uptime_24h, uptime_all);
    html.append(template::DETAIL_BAR);
    push_bar(&mut html, detail.bar.as_slice());
    html.append(template::DETAIL_RECENT);
    push_checks(&mut html, &detail.recent_checks);
    html.append(template::DETAIL_EMPTY);
    html.append(
        if detail.recent_checks.len() == 0 {
            template::NO_CHECKS
        } else {
            ""
        },
    );
    html.append(template::DETAIL_ID);
    html.append(detail.id.as_str());
    html.append(template::DETAIL_SCRIPT);
    html
}

/// Devices and checks that are up are shown in the class `up` and as UP, others in the class
/// `down` and as DOWN; failures are shown in the class `down` as soon as there are any. What is
/// not known is shown as two dashes.
pub proof fn values_are_shown(
    is_up: bool,
    ms: u64,
    code: u16,
    error: Seq<char>,
    failures: nat,
)
    ensures
        is_up ==> status_class(is_up) == "up"@ && status_label(is_up) == "UP"@,
        !is_up ==> status_class(is_up) == "down"@ && status_label(is_up) == "DOWN"@,
        duration_text(Some(ms)) == text::decimal(ms as nat) + " ms"@,
        duration_text(None) == "--"@,
        code_text(Some(code)) == text::decimal(code as nat),
        code_text(None) == "--"@,
        error_text(Some(error)) == error,
        error_text(None) == "--"@,
        failures == 0 ==> failure_class(failures).len() == 0,
        failures > 0 ==> failure_class(failures) == "down"@,
{
    reveal_strlit("");
}

/// A segment of the bar shows whether there is data, and if so whether all was up.
pub proof fn segments_are_shown()
    ensures
        segment_html(None) == "<div class=\"seg gap\" style=\"flex:1\"></div>"@,
        segment_html(Some(true)) == "<div class=\"seg up\" style=\"flex:1\"></div>"@,
        segment_html(Some(false)) == "<div class=\"seg down\" style=\"flex:1\"></div>"@,
{
    reveal_strlit("<div class=\"");
    reveal_strlit("seg gap");
    reveal_strlit("seg up");
    reveal_strlit("seg down");
    reveal_strlit("\" style=\"flex:1\"></div>");
    reveal_strlit("<div class=\"seg gap\" style=\"flex:1\"></div>");
    reveal_strlit("<div class=\"seg up\" style=\"flex:1\"></div>");
    reveal_strlit("<div class=\"seg down\" style=\"flex:1\"></div>");
    assert(segment_html(None) =~= "<div class=\"seg gap\" style=\"flex:1\"></div>"@);
    assert(segment_html(Some(true)) =~= "<div class=\"seg up\" style=\"flex:1\"></div>"@);
    assert(segment_html(Some(false)) =~= "<div class=\"seg down\" style=\"flex:1\"></div>"@);
}

/// The bar shows its segments, each on its own and in their order, and nothing else.
pub proof fn bars_are_shown_segment_by_segment(
    a: Seq<Option<bool>>,
    b: Seq<Option<bool>>,
    segment: Option<bool>,
)
    ensures
        segments_html(a + b) == segments_html(a) + segments_html(b),
        segments_html(seq![segment]) == segment_html(segment),
        bar_html(a)
            == "<div class=\"uptime-bar\" title=\"Last 24 hours — each segment is 5 minutes\">"@
            + segments_html(a) + "</div>"@,
    decreases b.len(),
{
    assert(seq![segment].drop_last() =~= Seq::<Option<bool>>::empty());
    assert(segments_html(seq![segment].drop_last()) =~= Seq::<char>::empty());
    assert(segments_html(seq![segment]) =~= segment_html(segment));
    if b.len() == 0 {
        assert(a + b =~= a);
        assert(segments_html(a) + segments_html(b) =~= segments_html(a));
    } else {
        assert((a + b).drop_last() =~= a + b.drop_last());
        bars_are_shown_segment_by_segment(a, b.drop_last(), segment);
        assert(segments_html(a + b) =~= segments_html(a) + segments_html(b));
    }
}

/// The row of a device links to its page by its name, shows its status as a dot and in words, and
/// then its uptime in per cent, its response time and its bar.
pub proof fn rows_show_their_device(row: DashboardRowView, uptime: Seq<char>)
    ensures
        ({
            let end = uptime + "%</td>\n  <td>"@ + duration_text(row.response_time_ms)
                + "</td>\n  <td>"@ + bar_html(row.bar) + "</td>\n</tr>"@;
            row_html(row, uptime) == if row.is_up {
                "<tr>\n  <td><span class=\"status-dot up\"></span> <a href=\"/api/dashboard/"@
                    + row.id + "\">"@ + row.name
                    + "</a></td>\n  <td class=\"status up\">UP</td>\n  <td>"@ + end
            } else {
                "<tr>\n  <td><span class=\"status-dot down\"></span> <a href=\"/api/dashboard/"@
                    + row.id + "\">"@ + row.name
                    + "</a></td>\n  <td class=\"status down\">DOWN</td>\n  <td>"@ + end
            }
        }),
{
    reveal_strlit("up");
    reveal_strlit("down");
    reveal_strlit("UP");
    reveal_strlit("DOWN");
    reveal_strlit("%");
    reveal_strlit("\">");
    reveal_strlit("</td>\n  <td>");
    reveal_strlit("%</td>\n  <td>");
    reveal_strlit("<tr>\n  <td><span class=\"status-dot ");
    reveal_strlit("\"></span> <a href=\"/api/dashboard/");
    reveal_strlit("</a></td>\n  <td class=\"status ");
    reveal_strlit("<tr>\n  <td><span class=\"status-dot up\"></span> <a href=\"/api/dashboard/");
    reveal_strlit("<tr>\n  <td><span class=\"status-dot down\"></span> <a href=\"/api/dashboard/");
    reveal_strlit("</a></td>\n  <td class=\"status up\">UP</td>\n  <td>");
    reveal_strlit("</a></td>\n  <td class=\"status down\">DOWN</td>\n  <td>");
    let class = status_class(row.is_up);
    let label = status_label(row.is_up);
    let front = "<tr>\n  <td><span class=\"status-dot "@ + class
        + "\"></span> <a href=\"/api/dashboard/"@;
    let middle = "</a></td>\n  <td class=\"status "@ + class + "\">"@ + label + "</td>\n  <td>"@;
    let percent = "%"@ + "</td>\n  <td>"@;
    assert(percent =~= "%</td>\n  <td>"@);
    if row.is_up {
        assert(front
            =~= "<tr>\n  <td><span class=\"status-dot up\"></span> <a href=\"/api/dashboard/"@);
        assert(middle =~= "</a></td>\n  <td class=\"status up\">UP</td>\n  <td>"@);
    } else {
        assert(front
            =~= "<tr>\n  <td><span class=\"status-dot down\"></span> <a href=\"/api/dashboard/"@);
        assert(middle =~= "</a></td>\n  <td class=\"status down\">DOWN</td>\n  <td>"@);
    }
    row_in_parts(row, uptime);
}

/// A row, with its fixed parts put together.
proof fn row_in_parts(row: DashboardRowView, uptime: Seq<char>)
    ensures
        ({
            let class = status_class(row.is_up);
            let label = status_label(row.is_up);
            let front = "<tr>\n  <td><span class=\"status-dot "@ + class
                + "\"></span> <a href=\"/api/dashboard/"@;
            let middle = "</a></td>\n  <td class=\"status "@ + class + "\">"@ + label
                + "</td>\n  <td>"@;
            row_html(row, uptime) == front + row.id + "\">"@ + row.name + middle + (uptime + ("%"@
                + "</td>\n  <td>"@) + duration_text(row.response_time_ms) + "</td>\n  <td>"@
                + bar_html(row.bar) + "</td>\n</tr>"@)
        }),
{
    let class = status_class(row.is_up);
    let label = status_label(row.is_up);
    let front = "<tr>\n  <td><span class=\"status-dot "@ + class
        + "\"></span> <a href=\"/api/dashboard/"@;
    let middle = "</a></td>\n  <td class=\"status "@ + class + "\">"@ + label + "</td>\n  <td>"@;
    let end = uptime + ("%"@ + "</td>\n  <td>"@) + duration_text(row.response_time_ms)
        + "</td>\n  <td>"@ + bar_html(row.bar) + "</td>\n</tr>"@;
    assert(row_html(row, uptime) =~= front + row.id + "\">"@ + row.name + middle + end);
}

/// The rows of the main page are shown one by one, each with its own uptime, in their order.
pub proof fn rows_are_shown_one_by_one(
    a: Seq<DashboardRowView>,
    b: Seq<DashboardRowView>,
    uptimes_a: Seq<Seq<char>>,
    uptimes_b: Seq<Seq<char>>,
    row: DashboardRowView,
    uptime: Seq<char>,
)
    requires
        a.len() == uptimes_a.len(),
        b.len() == uptimes_b.len(),
    ensures
        rows_html(a + b, uptimes_a + uptimes_b) == rows_html(a, uptimes_a) + rows_html(
            b,
            uptimes_b,
        ),
        rows_html(seq![row], seq![uptime]) == row_html(row, uptime),
        rows_html(Seq::empty(), Seq::empty()).len() == 0,
    decreases b.len(),
{
    let one = seq![row];
    assert(one.drop_last() =~= Seq::<DashboardRowView>::empty());
    assert(rows_html(one.drop_last(), seq![uptime].drop_last()) =~= Seq::<char>::empty());
    assert(rows_html(one, seq![uptime]) =~= row_html(row, uptime));
    if b.len() == 0 {
        assert(a + b =~= a);
        assert(uptimes_a + uptimes_b =~= uptimes_a);
        assert(rows_html(a, uptimes_a) + rows_html(b, uptimes_b) =~= rows_html(a, uptimes_a));
    } else {
        assert((a + b).drop_last() =~= a + b.drop_last());
        assert((uptimes_a + uptimes_b).drop_last() =~= uptimes_a + uptimes_b.drop_last());
        rows_are_shown_one_by_one(
            a,
            b.drop_last(),
            uptimes_a,
            uptimes_b.drop_last(),
            row,
            uptime,
        );
        assert(rows_html(a + b, uptimes_a + uptimes_b) =~= rows_html(a, uptimes_a) + rows_html(
            b,
            uptimes_b,
        ));
    }
}

/// `piece` stands somewhere in `page`.
pub open spec fn shows(page: Seq<char>, piece: Seq<char>) -> bool {
    exists|before: Seq<char>, after: Seq<char>| page == #[trigger] around(before, piece, after)
}

/// `piece` with something before and after it.
pub open spec fn around(before: Seq<char>, piece: Seq<char>, after: Seq<char>) -> Seq<char> {
    before + piece + after
}

/// What a page begins with or shows, it still does when something is added at its end.
proof fn adding_hides_nothing(page: Seq<char>, more: Seq<char>)
    ensures
        forall|piece: Seq<char>| #[trigger] shows(page, piece) ==> shows(page + more, piece),
        forall|piece: Seq<char>| #[trigger]
            text::begins_with(page, piece) ==> text::begins_with(page + more, piece),
{
    assert forall|piece: Seq<char>| #[trigger] shows(page, piece) implies shows(
        page + more,
        piece,
    ) by {
        let (before, after) = choose|before: Seq<char>, after: Seq<char>|
            page == #[trigger] around(before, piece, after);
        assert(page + more =~= around(before, piece, after + more));
    }
    assert forall|piece: Seq<char>| #[trigger] text::begins_with(page, piece) implies
        text::begins_with(page + more, piece) by {
        assert((page + more).take(piece.len() as int) =~= page.take(piece.len() as int));
    }
}

/// A page shows what was added last, with what stands before it.
proof fn the_end_is_shown(p: Seq<char>, l: Seq<char>, v: Seq<char>, n: Seq<char>)
    ensures
        shows(p + l + v + n, l + v + n),
        shows(p + l + v, l + v),
{
    assert(p + l + v + n =~= around(p, l + v + n, Seq::empty()));
    assert(p + l + v =~= around(p, l + v, Seq::empty()));
}

/// A page shows what was added last, in more parts.
proof fn the_long_end_is_shown(
    p: Seq<char>,
    l: Seq<char>,
    v: Seq<char>,
    w: Seq<char>,
    x: Seq<char>,
    n: Seq<char>,
)
    ensures
        shows(p + l + v + w + x + n, l + v + w + x + n),
{
    assert(p + l + v + w + x + n =~= around(p, l + v + w + x + n, Seq::empty()));
}

/// The main page shows the rows of all devices in its table, and the note that there are none
/// exactly if there are none.
pub proof fn the_main_page_shows_its_rows(rows: Seq<DashboardRowView>, uptimes: Seq<Seq<char>>)
    ensures
        shows(
            dashboard_html(rows, uptimes),
            template::DASHBOARD_BODY@ + rows_html(rows, uptimes) + template::DASHBOARD_EMPTY@ + (
            if rows.len() == 0 {
                template::NO_DEVICES@
            } else {
                Seq::empty()
            }) + template::DASHBOARD_TAIL@,
        ),
        text::begins_with(
            dashboard_html(rows, uptimes),
            template::DASHBOARD_HEAD@ + template::DASHBOARD_CSS@ + template::DASHBOARD_BODY@,
        ),
        dashboard_html(rows, uptimes).len() == template::DASHBOARD_HEAD@.len()
            + template::DASHBOARD_CSS@.len() + template::DASHBOARD_BODY@.len() + rows_html(
            rows,
            uptimes,
        ).len() + template::DASHBOARD_EMPTY@.len() + (if rows.len() == 0 {
            template::NO_DEVICES@.len()
        } else {
            0
        }) + template::DASHBOARD_TAIL@.len(),
{
    reveal_strlit("");
    let page = dashboard_html(rows, uptimes);
    let head = template::DASHBOARD_HEAD@ + template::DASHBOARD_CSS@;
    let note = if rows.len() == 0 {
        template::NO_DEVICES@
    } else {
        Seq::<char>::empty()
    };
    let piece = template::DASHBOARD_BODY@ + rows_html(rows, uptimes) + template::DASHBOARD_EMPTY@
        + note + template::DASHBOARD_TAIL@;
    assert(""@ =~= Seq::<char>::empty());
    assert(page =~= around(head, piece, Seq::empty()));
    assert(page.take((head + template::DASHBOARD_BODY@).len() as int) =~= head
        + template::DASHBOARD_BODY@);
}

/// The row of a check shows its time, its status in words, the status code, the response time and
/// the error.
pub proof fn checks_are_shown(check: CheckView)
    ensures
        ({
            let end = code_text(check.status_code) + "</td>\n  <td>"@ + duration_text(
                check.response_time_ms,
            )
                + "</td>\n  <td class=\"mono\" style=\"max-width:300px;overflow:hidden;text-overflow:ellipsis\">"@
                + error_text(check.error) + "</td>\n</tr>"@;
            check_html(check) == if check.is_up {
                "<tr>\n  <td class=\"mono\">"@ + check.timestamp
                    + "</td>\n  <td class=\"status up\">UP</td>\n  <td>"@ + end
            } else {
                "<tr>\n  <td class=\"mono\">"@ + check.timestamp
                    + "</td>\n  <td class=\"status down\">DOWN</td>\n  <td>"@ + end
            }
        }),
{
    reveal_strlit("up");
    reveal_strlit("down");
    reveal_strlit("UP");
    reveal_strlit("DOWN");
    reveal_strlit("\">");
    reveal_strlit("</td>\n  <td>");
    reveal_strlit("</td>\n  <td class=\"status ");
    reveal_strlit("</td>\n  <td class=\"status up\">UP</td>\n  <td>");
    reveal_strlit("</td>\n  <td class=\"status down\">DOWN</td>\n  <td>");
    let middle = "</td>\n  <td class=\"status "@ + status_class(check.is_up) + "\">"@
        + status_label(check.is_up) + "</td>\n  <td>"@;
    if check.is_up {
        assert(middle =~= "</td>\n  <td class=\"status up\">UP</td>\n  <td>"@);
    } else {
        assert(middle =~= "</td>\n  <td class=\"status down\">DOWN</td>\n  <td>"@);
    }
    check_in_parts(check);
}

/// The row of a check, with its fixed parts put together.
proof fn check_in_parts(check: CheckView)
    ensures
        ({
            let middle = "</td>\n  <td class=\"status "@ + status_class(check.is_up) + "\">"@
                + status_label(check.is_up) + "</td>\n  <td>"@;
            let end = code_text(check.status_code) + "</td>\n  <td>"@ + duration_text(
                check.response_time_ms,
            )
                + "</td>\n  <td class=\"mono\" style=\"max-width:300px;overflow:hidden;text-overflow:ellipsis\">"@
                + error_text(check.error) + "</td>\n</tr>"@;
            check_html(check) == "<tr>\n  <td class=\"mono\">"@ + check.timestamp + middle + end
        }),
{
    let middle = "</td>\n  <td class=\"status "@ + status_class(check.is_up) + "\">"@
        + status_label(check.is_up) + "</td>\n  <td>"@;
    let end = code_text(check.status_code) + "</td>\n  <td>"@ + duration_text(
        check.response_time_ms,
    )
        + "</td>\n  <td class=\"mono\" style=\"max-width:300px;overflow:hidden;text-overflow:ellipsis\">"@
        + error_text(check.error) + "</td>\n</tr>"@;
    assert(check_html(check) =~= "<tr>\n  <td class=\"mono\">"@ + check.timestamp + middle + end);
}

/// The recent checks are shown one by one, in their order.
pub proof fn checks_are_shown_one_by_one(a: Seq<CheckView>, b: Seq<CheckView>, check: CheckView)
    ensures
        checks_html(a + b) == checks_html(a) + checks_html(b),
        checks_html(seq![check]) == check_html(check),
        checks_html(Seq::empty()).len() == 0,
    decreases b.len(),
{
    let one = seq![check];
    assert(one.drop_last() =~= Seq::<CheckView>::empty());
    assert(checks_html(one.drop_last()) =~= Seq::<char>::empty());
    assert(checks_html(one) =~= check_html(check));
    if b.len() == 0 {
        assert(a + b =~= a);
        assert(checks_html(a) + checks_html(b) =~= checks_html(a));
    } else {
        assert((a + b).drop_last() =~= a + b.drop_last());
        checks_are_shown_one_by_one(a, b.drop_last(), check);
        assert(checks_html(a + b) =~= checks_html(a) + checks_html(b));
    }
}

/// Each figure of a device stands behind its own label: the status, the two uptimes, the average
/// response time, and the numbers of checks, of failures, of failures in a row and of all checks.
/// Nothing else is shown with them.
pub proof fn figures_stand_behind_their_labels(
    d: DashboardDetailView,
    uptime_24h: Seq<char>,
    uptime_all: Seq<char>,
)
    ensures
        ({
            let page = figures_html(d, uptime_24h, uptime_all);
            &&& d.is_up ==> text::begins_with(
                page,
                template::DETAIL_STATUS@ + "up"@ + "\">"@ + "UP"@ + template::DETAIL_UPTIME_24H@,
            )
            &&& !d.is_up ==> text::begins_with(
                page,
                template::DETAIL_STATUS@ + "down"@ + "\">"@ + "DOWN"@
                    + template::DETAIL_UPTIME_24H@,
            )
            &&& shows(
                page,
                template::DETAIL_UPTIME_24H@ + uptime_24h + template::DETAIL_UPTIME_ALL@,
            )
            &&& shows(page, template::DETAIL_UPTIME_ALL@ + uptime_all + template::DETAIL_AVG@)
            &&& shows(
                page,
                template::DETAIL_AVG@ + duration_text(d.avg_response_ms) + template::DETAIL_CHECKS@,
            )
            &&& shows(
                page,
                template::DETAIL_CHECKS@ + text::decimal(d.checks_24h as nat)
                    + template::DETAIL_FAILURES@,
            )
            &&& shows(
                page,
                template::DETAIL_FAILURES@ + failure_class(d.down_24h as nat) + "\">"@
                    + text::decimal(d.down_24h as nat) + template::DETAIL_CONSECUTIVE@,
            )
            &&& shows(
                page,
                template::DETAIL_CONSECUTIVE@ + failure_class(d.consecutive_failures as nat)
                    + "\">"@ + text::decimal(d.consecutive_failures as nat)
                    + template::DETAIL_TOTAL@,
            )
            &&& shows(page, template::DETAIL_TOTAL@ + text::decimal(d.total_checks as nat))
            &&& page.len() == template::DETAIL_STATUS@.len() + status_class(d.is_up).len() + 3
                * "\">"@.len() + status_label(d.is_up).len() + template::DETAIL_UPTIME_24H@.len()
                + uptime_24h.len() + template::DETAIL_UPTIME_ALL@.len() + uptime_all.len()
                + template::DETAIL_AVG@.len() + duration_text(d.avg_response_ms).len()
                + template::DETAIL_CHECKS@.len() + text::decimal(d.checks_24h as nat).len()
                + template::DETAIL_FAILURES@.len() + failure_class(d.down_24h as nat).len()
                + text::decimal(d.down_24h as nat).len() + template::DETAIL_CONSECUTIVE@.len()
                + failure_class(d.consecutive_failures as nat).len() + text::decimal(
                d.consecutive_failures as nat,
            ).len() + template::DETAIL_TOTAL@.len() + text::decimal(d.total_checks as nat).len()
        }),
{
    let q0 = template::DETAIL_STATUS@ + status_class(d.is_up) + "\">"@ + status_label(d.is_up);
    let l1 = template::DETAIL_UPTIME_24H@;
    let l2 = template::DETAIL_UPTIME_ALL@;
    let l3 = template::DETAIL_AVG@;
    let l4 = template::DETAIL_CHECKS@;
    let l5 = template::DETAIL_FAILURES@;
    let l6 = template::DETAIL_CONSECUTIVE@;
    let l7 = template::DETAIL_TOTAL@;
    let v3 = duration_text(d.avg_response_ms);
    let v4 = text::decimal(d.checks_24h as nat);
    let c5 = failure_class(d.down_24h as nat);
    let v5 = text::decimal(d.down_24h as nat);
    let c6 = failure_class(d.consecutive_failures as nat);
    let v6 = text::decimal(d.consecutive_failures as nat);
    let v7 = text::decimal(d.total_checks as nat);
    let q1 = q0 + l1;
    text::prefixes_are_completed(q1, q1, Seq::empty());
    assert(q1 + Seq::<char>::empty() =~= q1);
    let q2 = q1 + uptime_24h + l2;
    adding_hides_nothing(q1, uptime_24h);
    adding_hides_nothing(q1 + uptime_24h, l2);
    the_end_is_shown(q0, l1, uptime_24h, l2);
    let q3 = q2 + uptime_all + l3;
    adding_hides_nothing(q2, uptime_all);
    adding_hides_nothing(q2 + uptime_all, l3);
    the_end_is_shown(q1 + uptime_24h, l2, uptime_all, l3);
    let q4 = q3 + v3 + l4;
    adding_hides_nothing(q3, v3);
    adding_hides_nothing(q3 + v3, l4);
    the_end_is_shown(q2 + uptime_all, l3, v3, l4);
    let q5 = q4 + v4 + l5;
    adding_hides_nothing(q4, v4);
    adding_hides_nothing(q4 + v4, l5);
    the_end_is_shown(q3 + v3, l4, v4, l5);
    let q6 = q5 + c5 + "\">"@ + v5 + l6;
    adding_hides_nothing(q5, c5);
    adding_hides_nothing(q5 + c5, "\">"@);
    adding_hides_nothing(q5 + c5 + "\">"@, v5);
    adding_hides_nothing(q5 + c5 + "\">"@ + v5, l6);
    the_long_end_is_shown(q4 + v4, l5, c5, "\">"@, v5, l6);
    let q7 = q6 + c6 + "\">"@ + v6 + l7;
    adding_hides_nothing(q6, c6);
    adding_hides_nothing(q6 + c6, "\">"@);
    adding_hides_nothing(q6 + c6 + "\">"@, v6);
    adding_hides_nothing(q6 + c6 + "\">"@ + v6, l7);
    the_long_end_is_shown(q5 + c5 + "\">"@ + v5, l6, c6, "\">"@, v6, l7);
    adding_hides_nothing(q7, v7);
    the_end_is_shown(q6 + c6 + "\">"@ + v6, l7, v7, Seq::empty());
    assert(figures_html(d, uptime_24h, uptime_all) == q7 + v7);
}

/// The page of a device has its name as title and heading, shows its status and its URL, then the
/// figures, the bar, and the recent checks with the note that there are none exactly if there are
/// none; its script asks for the data of the device by its id. Nothing else is shown.
pub proof fn the_detail_page_shows_its_device(
    d: DashboardDetailView,
    uptime_24h: Seq<char>,
    uptime_all: Seq<char>,
)
    ensures
        ({
            let page = detail_html(d, uptime_24h, uptime_all);
            let figures = figures_html(d, uptime_24h, uptime_all);
            &&& text::begins_with(
                page,
                template::DETAIL_HEAD@ + d.name + template::DETAIL_TITLE@
                    + template::DASHBOARD_CSS@ + template::DETAIL_DOT@ + (if d.is_up {
                    "up"@
                } else {
                    "down"@
                }) + template::DETAIL_NAME@,
            )
            &&& shows(page, template::DETAIL_NAME@ + d.name + template::DETAIL_SUB@)
            &&& d.is_up ==> shows(page, template::DETAIL_SUB@ + "UP"@ + template::DETAIL_URL@)
            &&& !d.is_up ==> shows(page, template::DETAIL_SUB@ + "DOWN"@ + template::DETAIL_URL@)
            &&& shows(page, template::DETAIL_URL@ + d.url + figures)
            &&& shows(page, figures + template::DETAIL_BAR@ + bar_html(d.bar))
            &&& shows(
                page,
                template::DETAIL_BAR@ + bar_html(d.bar) + template::DETAIL_RECENT@,
            )
            &&& shows(
                page,
                template::DETAIL_RECENT@ + checks_html(d.recent_checks) + template::DETAIL_EMPTY@,
            )
            &&& d.recent_checks.len() == 0 ==> shows(
                page,
                template::DETAIL_EMPTY@ + template::NO_CHECKS@ + template::DETAIL_ID@,
            )
            &&& d.recent_checks.len() > 0 ==> shows(
                page,
                template::DETAIL_EMPTY@ + Seq::<char>::empty() + template::DETAIL_ID@,
            )
            &&& shows(page, template::DETAIL_ID@ + d.id + template::DETAIL_SCRIPT@)
            &&& page.len() == template::DETAIL_HEAD@.len() + 2 * d.name.len()
                + template::DETAIL_TITLE@.len() + template::DASHBOARD_CSS@.len()
                + template::DETAIL_DOT@.len() + status_class(d.is_up).len()
                + template::DETAIL_NAME@.len() + template::DETAIL_SUB@.len() + status_label(
                d.is_up,
            ).len() + template::DETAIL_URL@.len() + d.url.len() + figures.len()
                + template::DETAIL_BAR@.len() + bar_html(d.bar).len()
                + template::DETAIL_RECENT@.len() + checks_html(d.recent_checks).len()
                + template::DETAIL_EMPTY@.len() + (if d.recent_checks.len() == 0 {
                template::NO_CHECKS@.len()
            } else {
                0
            }) + template::DETAIL_ID@.len() + d.id.len() + template::DETAIL_SCRIPT@.len()
        }),
{
    reveal_strlit("");
    assert(""@ =~= Seq::<char>::empty());
    let figures = figures_html(d, uptime_24h, uptime_all);
    let class = status_class(d.is_up);
    let label = status_label(d.is_up);
    let bar = bar_html(d.bar);
    let checks = checks_html(d.recent_checks);
    let note = if d.recent_checks.len() == 0 {
        template::NO_CHECKS@
    } else {
        ""@
    };
    let l1 = template::DETAIL_NAME@;
    let l2 = template::DETAIL_SUB@;
    let l3 = template::DETAIL_URL@;
    let l4 = template::DETAIL_BAR@;
    let l5 = template::DETAIL_RECENT@;
    let l6 = template::DETAIL_EMPTY@;
    let l7 = template::DETAIL_ID@;
    let l8 = template::DETAIL_SCRIPT@;
    let q0 = template::DETAIL_HEAD@ + d.name + template::DETAIL_TITLE@ + template::DASHBOARD_CSS@
        + template::DETAIL_DOT@ + class;
    let q1 = q0 + l1;
    text::prefixes_are_completed(q1, q1, Seq::empty());
    assert(q1 + Seq::<char>::empty() =~= q1);
    let q2 = q1 + d.name + l2;
    adding_hides_nothing(q1, d.name);
    adding_hides_nothing(q1 + d.name, l2);
    the_end_is_shown(q0, l1, d.name, l2);
    let q3 = q2 + label + l3;
    adding_hides_nothing(q2, label);
    adding_hides_nothing(q2 + label, l3);
    the_end_is_shown(q1 + d.name, l2, label, l3);
    let q4 = q3 + d.url + figures;
    adding_hides_nothing(q3, d.url);
    adding_hides_nothing(q3 + d.url, figures);
    the_end_is_shown(q2 + label, l3, d.url, figures);
    let q5 = q4 + l4 + bar;
    adding_hides_nothing(q4, l4);
    adding_hides_nothing(q4 + l4, bar);
    the_end_is_shown(q3 + d.url, figures, l4, bar);
    let q6 = q5 + l5;
    adding_hides_nothing(q5, l5);
    the_end_is_shown(q4, l4, bar, l5);
    let q7 = q6 + checks + l6;
    adding_hides_nothing(q6, checks);
    adding_hides_nothing(q6 + checks, l6);
    the_end_is_shown(q5, l5, checks, l6);
    let q8 = q7 + note + l7;
    adding_hides_nothing(q7, note);
    adding_hides_nothing(q7 + note, l7);
    the_end_is_shown(q6 + checks, l6, note, l7);
    let q9 = q8 + d.id + l8;
    adding_hides_nothing(q8, d.id);
    adding_hides_nothing(q8 + d.id, l8);
    the_end_is_shown(q7 + note, l7, d.id, l8);
    assert(detail_html(d, uptime_24h, uptime_all) == q9);
}

} // verus!
