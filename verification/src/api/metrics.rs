//! Metric queries: time windows, statements and the nodes to ask.

use vstd::prelude::*;
use vstd::string::*;

use crate::access::{caller, is_unconfined, require_unscoped, AuthContext, Denial};
use crate::api::logs::{asked, reachable, resolve_nodes, Asked, NodeUrl};
use crate::membership::{is_voter, NodeMembershipInfo};
use crate::reply::{refused, ClusterHttp, Refusal, Status};
use crate::text::{borrowed_text, decimal, decimal_text, from_chars, same_text, strings, to_chars};

verus! {

/// The last instant that a query asks for.
pub const LAST_INSTANT: u64 = 0x7fff_ffff_ffff_ffff;

/// A span of time.
#[derive(Debug, Clone, Copy, PartialEq, Eq, Structural)]
pub struct Window {
    /// First instant.
    pub start: u64,
    /// Last instant.
    pub end: u64,
}

/// The window that a query asks for: all of time where it does not say. The
/// end never reaches the largest number, of which the query engine could not
/// count the instants.
pub fn query_window(start: Option<u64>, end: Option<u64>) -> (r: Window)
    ensures
        r.start == if start is Some {
            start->0
        } else {
            0
        },
        r.end == if end is Some && end->0 <= LAST_INSTANT {
            end->0
        } else {
            LAST_INSTANT
        },
{
    Window {
        start: match start {
            Some(start) => start,
            None => 0,
        },
        end: match end {
            Some(end) => if end <= LAST_INSTANT {
                end
            } else {
                LAST_INSTANT
            },
            None => LAST_INSTANT,
        },
    }
}

/// A text with every quote doubled.
pub open spec fn escaped(s: Seq<char>) -> Seq<char>
    decreases s.len(),
{
    if s.len() == 0 {
        Seq::empty()
    } else if s.last() == '\'' {
        escaped(s.drop_last()).push('\'').push('\'')
    } else {
        escaped(s.drop_last()).push(s.last())
    }
}

/// A text as a literal of SQL.
pub open spec fn quoted(s: Seq<char>) -> Seq<char> {
    seq!['\''] + escaped(s) + seq!['\'']
}

/// Escape a text for a literal of SQL, by doubling its quotes.
pub fn escape_sql_literal(s: &str) -> (r: String)
    ensures
        r@ == escaped(s@),
{
    let chars = to_chars(s);
    let mut out: Vec<char> = Vec::new();
    let mut i: usize = 0;
    proof {
        assert(chars@.take(0) =~= Seq::<char>::empty());
    }
    while i < chars.len()
        invariant
            i <= chars.len(),
            out@ == escaped(chars@.take(i as int)),
        decreases chars.len() - i,
    {
        proof {
            assert(chars@.take(i as int + 1).drop_last() =~= chars@.take(i as int));
            assert(chars@.take(i as int + 1).last() == chars@[i as int]);
        }
        let c: char = chars[i];
        out.push(c);
        if c == '\'' {
            out.push('\'');
        }
        i = i + 1;
    }
    proof {
        assert(chars@.take(chars@.len() as int) =~= chars@);
    }
    from_chars(&out)
}

/// Write a text as a literal of SQL.
pub fn sql_literal(s: &str) -> (r: String)
    ensures
        r@ == quoted(s@),
{
    let mut out: String = "'".to_owned();
    out.append(escape_sql_literal(s).as_str());
    out.append("'");
    proof {
        reveal_strlit("'");
        assert("'"@ =~= seq!['\'']);
    }
    out
}

/// What a reader of SQL takes from a text that follows an opening quote: the
/// literal's contents and what follows it. Two quotes stand for one, and a
/// single quote ends the literal.
pub open spec fn read_literal(text: Seq<char>) -> Option<(Seq<char>, Seq<char>)>
    decreases text.len(),
{
    if text.len() == 0 {
        None
    } else if text[0] != '\'' {
        match read_literal(text.skip(1)) {
            Some((contents, rest)) => Some((seq![text[0]] + contents, rest)),
            None => None,
        }
    } else if text.len() > 1 && text[1] == '\'' {
        match read_literal(text.skip(2)) {
            Some((contents, rest)) => Some((seq!['\''] + contents, rest)),
            None => None,
        }
    } else {
        Some((Seq::empty(), text.skip(1)))
    }
}

proof fn escaped_from_the_front(s: Seq<char>)
    requires
        s.len() > 0,
    ensures
        escaped(s) == (if s[0] == '\'' {
            seq!['\'', '\'']
        } else {
            seq![s[0]]
        }) + escaped(s.skip(1)),
    decreases s.len(),
{
    let head = if s[0] == '\'' {
        seq!['\'', '\'']
    } else {
        seq![s[0]]
    };
    if s.len() == 1 {
        assert(s.drop_last() =~= Seq::<char>::empty());
        assert(s.skip(1) =~= Seq::<char>::empty());
        assert(escaped(s) =~= head + escaped(s.skip(1)));
    } else {
        let front = s.drop_last();
        escaped_from_the_front(front);
        assert(front[0] == s[0]);
        assert(front.skip(1) =~= s.skip(1).drop_last());
        assert(s.skip(1).last() == s.last());
        assert(escaped(s) =~= head + escaped(s.skip(1)));
    }
}

/// A literal holds exactly the text that it was made of, whatever the text and
/// whatever follows, so no text can end its literal and go on as a statement.
pub proof fn literals_hold_their_text(s: Seq<char>, rest: Seq<char>)
    requires
        rest.len() > 0 ==> rest[0] != '\'',
    ensures
        (quoted(s) + rest)[0] == '\'',
        read_literal((quoted(s) + rest).skip(1)) == Some((s, rest)),
    decreases s.len(),
{
    let text = escaped(s) + seq!['\''] + rest;
    assert((quoted(s) + rest).skip(1) =~= text);
    if s.len() == 0 {
        assert(text =~= seq!['\''] + rest);
        assert(text.skip(1) =~= rest);
        assert(s =~= Seq::<char>::empty());
    } else {
        let tail = s.skip(1);
        escaped_from_the_front(s);
        literals_hold_their_text(tail, rest);
        let after = escaped(tail) + seq!['\''] + rest;
        assert((quoted(tail) + rest).skip(1) =~= after);
        if s[0] == '\'' {
            assert(text.skip(2) =~= after);
        } else {
            assert(text.skip(1) =~= after);
        }
        assert(seq![s[0]] + tail =~= s);
    }
}

/// The pattern that finds an app among the labels of a sample.
pub open spec fn app_pattern(app: Seq<char>) -> Seq<char> {
    "%\""@ + app + "\"%"@
}

/// The condition of a window.
pub open spec fn window_text(window: Window) -> Seq<char> {
    "timestamp >= "@ + decimal_text(window.start as nat) + " AND timestamp <= "@ + decimal_text(
        window.end as nat,
    )
}

/// The conditions on the name and the app of a sample, where there are any.
pub open spec fn filter_text(name: Option<Seq<char>>, app: Option<Seq<char>>) -> Seq<char> {
    (match name {
        Some(name) => "metric_name = "@ + quoted(name) + " AND "@,
        None => ""@,
    }) + match app {
        Some(app) => "labels LIKE "@ + quoted(app_pattern(app)) + " AND "@,
        None => ""@,
    }
}

/// The statement that reads samples.
pub open spec fn samples_text(
    name: Option<Seq<char>>,
    app: Option<Seq<char>>,
    window: Window,
) -> Seq<char> {
    "SELECT timestamp, metric_name, labels, value FROM metrics WHERE "@ + filter_text(name, app)
        + window_text(window) + " ORDER BY timestamp LIMIT 10000"@
}

fn append_window(out: &mut String, window: &Window)
    ensures
        final(out)@ == old(out)@ + window_text(*window),
{
    let ghost before = out@;
    out.append("timestamp >= ");
    out.append(decimal(window.start).as_str());
    out.append(" AND timestamp <= ");
    out.append(decimal(window.end).as_str());
    proof {
        assert(out@ =~= before + window_text(*window));
    }
}

/// Write the statement that reads samples of a metric, of an app, or both.
///
/// Names come from callers, so each stands in a literal of its own.
pub fn samples_sql(name: Option<&str>, app: Option<&str>, window: &Window) -> (r: String)
    ensures
        r@ == samples_text(borrowed_text(name), borrowed_text(app), *window),
{
    let mut filter: String = "".to_owned();
    let ghost mut first = ""@;
    match name {
        Some(name) => {
            filter.append("metric_name = ");
            filter.append(sql_literal(name).as_str());
            filter.append(" AND ");
            proof {
                first = "metric_name = "@ + quoted(name@) + " AND "@;
                reveal_strlit("");
                assert(filter@ =~= first);
            }
        },
        None => {},
    }
    match app {
        Some(app) => {
            let mut pattern: String = "%\"".to_owned();
            pattern.append(app);
            pattern.append("\"%");
            filter.append("labels LIKE ");
            filter.append(sql_literal(pattern.as_str()).as_str());
            filter.append(" AND ");
            proof {
                assert(filter@ =~= first + ("labels LIKE "@ + quoted(app_pattern(app@))
                    + " AND "@));
            }
        },
        None => {
            proof {
                reveal_strlit("");
                assert(first + ""@ =~= first);
            }
        },
    }
    proof {
        assert(filter@ == filter_text(borrowed_text(name), borrowed_text(app)));
    }
    let mut out: String = "SELECT timestamp, metric_name, labels, value FROM metrics WHERE ".to_owned();
    out.append(filter.as_str());
    append_window(&mut out, window);
    out.append(" ORDER BY timestamp LIMIT 10000");
    out
}

/// How samples are read from a store.
#[derive(Debug)]
pub enum MetricsRead {
    /// By a statement.
    Statement(String),
    /// By the name of a metric, in a window.
    Named(String, Window),
}

/// Whether a read is the one that a question asks for: one metric of all apps is
/// read by name, anything else by a statement. `*` names every metric.
pub open spec fn reads_samples(
    read: MetricsRead,
    name: Option<Seq<char>>,
    app: Option<Seq<char>>,
    window: Window,
) -> bool {
    let metric = if name == Some("*"@) {
        None
    } else {
        name
    };
    match (metric, app) {
        (Some(metric), None) => read matches MetricsRead::Named(named, during) && named@ == metric
            && during == window,
        (metric, app) => read matches MetricsRead::Statement(sql) && sql@ == samples_text(
            metric,
            app,
            window,
        ),
    }
}

/// Decide how this node's samples are read.
pub fn metrics_read(name: Option<&str>, app: Option<&str>, window: &Window) -> (r: MetricsRead)
    ensures
        reads_samples(r, borrowed_text(name), borrowed_text(app), *window),
{
    let metric: Option<&str> = match name {
        Some(name) => if same_text(name, "*") {
            None
        } else {
            Some(name)
        },
        None => None,
    };
    match (metric, app) {
        (Some(metric), None) => MetricsRead::Named(metric.to_owned(), *window),
        (metric, app) => MetricsRead::Statement(samples_sql(metric, app, window)),
    }
}

/// The label of an app on its samples.
pub open spec fn app_label_text(app: Seq<char>, namespace: Seq<char>) -> Seq<char> {
    namespace + "/"@ + app
}

/// Write the label of an app on its samples.
pub fn app_label(app: &str, namespace: &str) -> (r: String)
    ensures
        r@ == app_label_text(app@, namespace@),
{
    let mut out: String = namespace.to_owned();
    out.append("/");
    out.append(app);
    out
}

/// Write the statement that reads one app's samples from this node's store.
pub fn app_samples_sql(app: &str, namespace: &str, name: Option<&str>, window: &Window) -> (r:
    String)
    ensures
        r@ == samples_text(borrowed_text(name), Some(app_label_text(app@, namespace@)), *window),
{
    let label = app_label(app, namespace);
    samples_sql(name, Some(label.as_str()), window)
}

/// The statement that reads all rollups.
pub open spec fn rollups_text(window: Window) -> Seq<char> {
    "SELECT timestamp, metric_name, labels, SUM(sum_val) as total_sum FROM rollups WHERE "@
        + window_text(window)
        + " GROUP BY timestamp, metric_name, labels ORDER BY timestamp LIMIT 10000"@
}

/// Decide how rollups are read: one metric by name, all by a statement.
pub fn rollup_read(name: Option<&str>, window: &Window) -> (r: MetricsRead)
    ensures
        match name {
            Some(name) => r matches MetricsRead::Named(named, during) && named@ == name@ && during
                == *window,
            None => r matches MetricsRead::Statement(sql) && sql@ == rollups_text(*window),
        },
{
    match name {
        Some(name) => MetricsRead::Named(name.to_owned(), *window),
        None => {
            let mut out: String =
                "SELECT timestamp, metric_name, labels, SUM(sum_val) as total_sum FROM rollups WHERE ".to_owned();
            append_window(&mut out, window);
            out.append(" GROUP BY timestamp, metric_name, labels ORDER BY timestamp LIMIT 10000");
            MetricsRead::Statement(out)
        },
    }
}

/// The URLs of the members that vote, in the order of the members.
pub open spec fn voter_urls(
    members: Seq<NodeMembershipInfo>,
    voters: Seq<u64>,
    http: ClusterHttp,
) -> Seq<Seq<char>>
    decreases members.len(),
{
    if members.len() == 0 {
        Seq::empty()
    } else {
        let before = voter_urls(members.drop_last(), voters, http);
        if voters.contains(members.last().raft_id) {
            before.push(http.url_text(members.last().address@, ""@))
        } else {
            before
        }
    }
}

/// The URLs to ask for rollups, if there are any: those of every member that
/// votes. Each voter holds the rollups of its own workers only, so all of them
/// are asked. Without a council, a membership or a live voter there is none.
pub fn resolve_council_urls(
    voters: Option<&Vec<u64>>,
    members: Option<&Vec<NodeMembershipInfo>>,
    http: &ClusterHttp,
) -> (r: Option<Vec<String>>)
    ensures
        if voters is None || members is None || voter_urls(
            members->0@,
            voters->0@,
            *http,
        ).len() == 0 {
            r is None
        } else {
            r matches Some(urls) && strings(urls@) == voter_urls(
                members->0@,
                voters->0@,
                *http,
            )
        },
{
    let (voters, members) = match (voters, members) {
        (Some(voters), Some(members)) => (voters, members),
        _ => {
            return None;
        },
    };
    let mut urls: Vec<String> = Vec::new();
    let mut i: usize = 0;
    proof {
        assert(members@.take(0) =~= Seq::<NodeMembershipInfo>::empty());
        assert(strings(urls@) =~= Seq::<Seq<char>>::empty());
    }
    while i < members.len()
        invariant
            i <= members.len(),
            strings(urls@) == voter_urls(members@.take(i as int), voters@, *http),
        decreases members.len() - i,
    {
        let ghost before = urls@;
        proof {
            assert(members@.take(i as int + 1).drop_last() =~= members@.take(i as int));
            assert(members@.take(i as int + 1).last() == members@[i as int]);
        }
        if is_voter(voters, members[i].raft_id) {
            let url = http.url(members[i].address.as_str(), "");
            let ghost text = url@;
            urls.push(url);
            proof {
                assert(strings(urls@) =~= strings(before).push(text));
            }
        }
        i = i + 1;
    }
    proof {
        assert(members@.take(members@.len() as int) =~= members@);
        assert(strings(urls@).len() == urls@.len());
    }
    if urls.len() == 0 {
        None
    } else {
        Some(urls)
    }
}

/// Every live voter is asked for its rollups, and nobody else.
pub proof fn every_live_voter_is_asked(
    members: Seq<NodeMembershipInfo>,
    voters: Seq<u64>,
    http: ClusterHttp,
    url: Seq<char>,
)
    ensures
        voter_urls(members, voters, http).contains(url) <==> exists|i: int|
            0 <= i < members.len() && voters.contains((#[trigger] members[i]).raft_id) && url
                == http.url_text(members[i].address@, ""@),
    decreases members.len(),
{
    if members.len() > 0 {
        let rest = members.drop_last();
        let last = members.len() - 1;
        let before = voter_urls(rest, voters, http);
        let all = voter_urls(members, voters, http);
        every_live_voter_is_asked(rest, voters, http, url);
        if voters.contains(members[last].raft_id) {
            let added = http.url_text(members[last].address@, ""@);
            assert(all == before.push(added));
            if all.contains(url) {
                let k = choose|k: int| 0 <= k < all.len() && all[k] == url;
                if k < before.len() {
                    assert(before[k] == url);
                    let i = choose|i: int|
                        0 <= i < rest.len() && voters.contains((#[trigger] rest[i]).raft_id) && url
                            == http.url_text(rest[i].address@, ""@);
                    assert(members[i] == rest[i]);
                }
            }
            assert(all[before.len() as int] == added);
        } else {
            assert(all == before);
            if before.contains(url) {
                let i = choose|i: int|
                    0 <= i < rest.len() && voters.contains((#[trigger] rest[i]).raft_id) && url
                        == http.url_text(rest[i].address@, ""@);
                assert(members[i] == rest[i]);
            }
        }
        if exists|i: int|
            0 <= i < members.len() && voters.contains((#[trigger] members[i]).raft_id) && url
                == http.url_text(members[i].address@, ""@) {
            let i = choose|i: int|
                0 <= i < members.len() && voters.contains((#[trigger] members[i]).raft_id) && url
                    == http.url_text(members[i].address@, ""@);
            if i < last {
                assert(rest[i] == members[i]);
                assert(before.contains(url));
                let k = choose|k: int| 0 <= k < before.len() && before[k] == url;
                assert(all[k] == url);
            } else {
                assert(all[all.len() - 1] == url);
            }
        }
    }
}

/// Find the nodes to ask for one app's samples: the live nodes that it is
/// placed on. There is none where placements or membership are unknown.
pub fn app_metrics_nodes(
    placed: Option<&Vec<String>>,
    members: Option<&Vec<NodeMembershipInfo>>,
    http: &ClusterHttp,
) -> (r: Vec<NodeUrl>)
    ensures
        asked(r@) == if placed is None || members is None {
            Seq::<Asked>::empty()
        } else {
            reachable(strings(placed->0@), members->0@, *http).0
        },
{
    match (placed, members) {
        (Some(placed), Some(members)) => {
            let (nodes, _) = resolve_nodes(placed, members, http);
            nodes
        },
        _ => {
            let none: Vec<NodeUrl> = Vec::new();
            proof {
                assert(asked(none@) =~= Seq::<Asked>::empty());
            }
            none
        },
    }
}

/// What becomes of a question for this node's samples.
#[derive(Debug)]
pub enum LocalMetrics {
    /// There is no store, as the answer says.
    Disabled(String),
    /// What to read from the store.
    Read(MetricsRead),
}

/// Decide what becomes of a question for this node's samples: it reads those of
/// every app, so a confined caller is refused.
pub fn local_metrics(
    auth: Option<&AuthContext>,
    enabled: bool,
    name: Option<&str>,
    app: Option<&str>,
    window: &Window,
) -> (r: Result<LocalMetrics, Refusal>)
    ensures
        if !is_unconfined(caller(auth)) {
            refused(r, Status::Forbidden, Denial::Confined.text())
        } else if !enabled {
            r matches Ok(LocalMetrics::Disabled(words)) && words@ == "metrics not enabled"@
        } else {
            r matches Ok(LocalMetrics::Read(read)) && reads_samples(
                read,
                borrowed_text(name),
                borrowed_text(app),
                *window,
            )
        },
{
    match require_unscoped(auth) {
        Err(denial) => {
            return Err(denial.refusal());
        },
        Ok(()) => {},
    }
    if !enabled {
        return Ok(LocalMetrics::Disabled("metrics not enabled".to_owned()));
    }
    Ok(LocalMetrics::Read(metrics_read(name, app, window)))
}

/// What becomes of a question for the cluster's rollups.
#[derive(Debug)]
pub enum ClusterMetrics {
    /// Every voter at these URLs is asked.
    FanOut(Vec<String>),
    /// This node's own rollups are read.
    Local,
    /// There is nothing to read, and the answer warns of it by this name.
    Unconfigured(String),
}

/// Decide what becomes of a question for the cluster's rollups.
pub fn cluster_metrics(
    auth: Option<&AuthContext>,
    voters: Option<&Vec<u64>>,
    members: Option<&Vec<NodeMembershipInfo>>,
    http: &ClusterHttp,
    enabled: bool,
) -> (r: Result<ClusterMetrics, Refusal>)
    ensures
        if !is_unconfined(caller(auth)) {
            refused(r, Status::Forbidden, Denial::Confined.text())
        } else if voters is Some && members is Some && voter_urls(
            members->0@,
            voters->0@,
            *http,
        ).len() > 0 {
            r matches Ok(ClusterMetrics::FanOut(urls)) && strings(urls@) == voter_urls(
                members->0@,
                voters->0@,
                *http,
            )
        } else if enabled {
            r is Ok && r->Ok_0 is Local
        } else {
            r matches Ok(ClusterMetrics::Unconfigured(name)) && name@
                == "no rollup store configured"@
        },
{
    match require_unscoped(auth) {
        Err(denial) => {
            return Err(denial.refusal());
        },
        Ok(()) => {},
    }
    match resolve_council_urls(voters, members, http) {
        Some(urls) => Ok(ClusterMetrics::FanOut(urls)),
        None => if enabled {
            Ok(ClusterMetrics::Local)
        } else {
            Ok(ClusterMetrics::Unconfigured("no rollup store configured".to_owned()))
        },
    }
}

} // verus!
