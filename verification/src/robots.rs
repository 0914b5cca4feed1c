use vstd::prelude::*;
use vstd::string::StringExecFns;

use crate::clock::now_utc;
use crate::models::{DomainRecord, Timestamp};
use crate::text::{
    chars_of, lines_spec, line_ranges, parse_u64_range, parse_u64_spec,
    range_equals, range_pieces, range_starts_with, starts_with_spec, string_of_range, strip_all_prefix,
    strip_all_prefix_range, trim_range, trim_spec, lemma_trim_idempotent,
};
use crate::urls::{path_of, url_path};

verus! {

/// The name this crawler goes by in robots.txt.
pub open spec fn crawler_agent() -> Seq<char> {
    seq!['m', 'y', '-', 'c', 'r', 'a', 'w', 'l', 'e', 'r']
}

pub open spec fn user_agent_tag() -> Seq<char> {
    seq!['U', 's', 'e', 'r', '-', 'a', 'g', 'e', 'n', 't', ':']
}

pub open spec fn disallow_tag() -> Seq<char> {
    seq!['D', 'i', 's', 'a', 'l', 'l', 'o', 'w', ':']
}

pub open spec fn crawl_delay_tag() -> Seq<char> {
    seq!['C', 'r', 'a', 'w', 'l', '-', 'd', 'e', 'l', 'a', 'y', ':']
}

/// Whether rules under `User-agent: agent` apply to this crawler.
pub open spec fn agent_applies(agent: Seq<char>) -> bool {
    agent == seq!['*'] || agent == crawler_agent()
}

/// The value of a `tag` line: the line after every leading `tag`, trimmed.
pub open spec fn tag_value(line: Seq<char>, tag: Seq<char>) -> Seq<char> {
    trim_spec(strip_all_prefix(line, tag))
}

/// What has been read of a robots.txt so far.
pub struct RobotsScan {
    /// Whether the current `User-agent` group applies to this crawler.
    pub applicable: bool,
    pub disallow: Seq<Seq<char>>,
    pub crawl_delay: Option<u64>,
}

pub open spec fn scan_start() -> RobotsScan {
    RobotsScan { applicable: false, disallow: seq![], crawl_delay: None }
}

/// One line of robots.txt read into the scan: a `User-agent:` line opens a
/// group that applies or not; inside an applicable group a non-empty
/// `Disallow:` value is a rule and a `Crawl-delay:` line sets the delay
/// (to `None` when its value is not a `u64`).
pub open spec fn scan_line(st: RobotsScan, raw: Seq<char>) -> RobotsScan {
    let line = trim_spec(raw);
    let applicable = if starts_with_spec(line, user_agent_tag()) {
        agent_applies(tag_value(line, user_agent_tag()))
    } else {
        st.applicable
    };
    if !applicable {
        RobotsScan { applicable, disallow: st.disallow, crawl_delay: st.crawl_delay }
    } else {
        let disallow = if starts_with_spec(line, disallow_tag()) && tag_value(
            line,
            disallow_tag(),
        ).len() > 0 {
            st.disallow.push(tag_value(line, disallow_tag()))
        } else {
            st.disallow
        };
        let crawl_delay = if starts_with_spec(line, crawl_delay_tag()) {
            parse_u64_spec(tag_value(line, crawl_delay_tag()))
        } else {
            st.crawl_delay
        };
        RobotsScan { applicable, disallow, crawl_delay }
    }
}

/// The scan after reading `lines` in order.
pub open spec fn scan_lines(lines: Seq<Seq<char>>) -> RobotsScan
    decreases lines.len(),
{
    if lines.len() == 0 {
        scan_start()
    } else {
        scan_line(scan_lines(lines.drop_last()), lines.last())
    }
}

/// The rules that a robots.txt `text` sets for this crawler.
pub open spec fn robots_rules(text: Seq<char>) -> RobotsScan {
    scan_lines(lines_spec(text))
}

fn tag_chars_user_agent() -> (v: Vec<char>)
    ensures
        v@ == user_agent_tag(),
{
    let v = vec!['U', 's', 'e', 'r', '-', 'a', 'g', 'e', 'n', 't', ':'];
    assert(v@ =~= user_agent_tag());
    v
}

fn tag_chars_disallow() -> (v: Vec<char>)
    ensures
        v@ == disallow_tag(),
{
    let v = vec!['D', 'i', 's', 'a', 'l', 'l', 'o', 'w', ':'];
    assert(v@ =~= disallow_tag());
    v
}

fn tag_chars_crawl_delay() -> (v: Vec<char>)
    ensures
        v@ == crawl_delay_tag(),
{
    let v = vec!['C', 'r', 'a', 'w', 'l', '-', 'd', 'e', 'l', 'a', 'y', ':'];
    assert(v@ =~= crawl_delay_tag());
    v
}

/// The trimmed value `[a, b)` of the tag line `v[lo..hi]`.
fn tag_value_range(v: &Vec<char>, lo: usize, hi: usize, tag: &Vec<char>) -> (r: (usize, usize))
    requires
        lo <= hi <= v@.len(),
        tag@.len() > 0,
    ensures
        r.0 <= r.1 <= v@.len(),
        v@.subrange(r.0 as int, r.1 as int) == tag_value(v@.subrange(lo as int, hi as int), tag@),
{
    let k = strip_all_prefix_range(v, lo, hi, tag);
    trim_range(v, k, hi)
}

/// The robots.txt rules in `text` for this crawler, recorded for `domain` as
/// read at `fetched_at`.
pub fn parse_robots_at(text: &str, domain: &str, fetched_at: Timestamp) -> (r: DomainRecord)
    ensures
        r@.domain == domain@,
        r@.disallow == robots_rules(text@).disallow,
        r@.crawl_delay == robots_rules(text@).crawl_delay,
        r@.fetched_at == fetched_at,
{
    let v = chars_of(text);
    let rs = line_ranges(&v);
    let ua = tag_chars_user_agent();
    let dis = tag_chars_disallow();
    let cd = tag_chars_crawl_delay();
    let star = vec!['*'];
    let me = vec!['m', 'y', '-', 'c', 'r', 'a', 'w', 'l', 'e', 'r'];
    assert(star@ =~= seq!['*']);
    assert(me@ =~= crawler_agent());
    let ghost lines = range_pieces(v@, rs@);
    let mut applicable = false;
    let mut disallow: Vec<String> = Vec::new();
    let mut crawl_delay: Option<u64> = None;
    let mut k: usize = 0;
    assert(lines.take(0) =~= Seq::<Seq<char>>::empty());
    assert(disallow.deep_view() =~= Seq::<Seq<char>>::empty());
    while k < rs.len()
        invariant
            k <= rs@.len(),
            lines == range_pieces(v@, rs@),
            lines == lines_spec(v@),
            v@ == text@,
            forall|j: int| 0 <= j < rs@.len() ==> #[trigger] rs@[j].0 <= rs@[j].1 <= v@.len(),
            ua@ == user_agent_tag(),
            dis@ == disallow_tag(),
            cd@ == crawl_delay_tag(),
            star@ == seq!['*'],
            me@ == crawler_agent(),
            scan_lines(lines.take(k as int)) == (RobotsScan {
                applicable,
                disallow: disallow.deep_view(),
                crawl_delay,
            }),
        decreases rs@.len() - k,
    {
        let (lo, hi) = rs[k];
        let ghost raw = v@.subrange(lo as int, hi as int);
        assert(lines[k as int] == raw);
        assert(lines.take(k + 1).drop_last() == lines.take(k as int));
        let (a, b) = trim_range(&v, lo, hi);
        let ghost line = v@.subrange(a as int, b as int);
        if range_starts_with(&v, a, b, &ua) {
            let (x, y) = tag_value_range(&v, a, b, &ua);
            applicable = range_equals(&v, x, y, &star) || range_equals(&v, x, y, &me);
        }
        if applicable {
            if range_starts_with(&v, a, b, &dis) {
                let (x, y) = tag_value_range(&v, a, b, &dis);
                if x < y {
                    let ghost old_d = disallow.deep_view();
                    disallow.push(string_of_range(&v, x, y));
                    assert(disallow.deep_view() =~= old_d.push(v@.subrange(x as int, y as int)));
                }
            }
            if range_starts_with(&v, a, b, &cd) {
                let (x, y) = tag_value_range(&v, a, b, &cd);
                crawl_delay = parse_u64_range(&v, x, y);
            }
        }
        k = k + 1;
    }
    assert(lines.take(rs@.len() as int) == lines);
    DomainRecord { domain: domain.to_string(), disallow, crawl_delay, fetched_at }
}

/// The robots.txt rules in `text` for this crawler, recorded for `domain` as
/// read now.
pub fn parse_robots(text: &str, domain: &str) -> (r: DomainRecord)
    ensures
        r@.domain == domain@,
        r@.disallow == robots_rules(text@).disallow,
        r@.crawl_delay == robots_rules(text@).crawl_delay,
{
    parse_robots_at(text, domain, now_utc())
}

/// A record with no rules for `domain`, as read at `fetched_at`.
pub fn permissive_record_at(domain: &str, fetched_at: Timestamp) -> (r: DomainRecord)
    ensures
        r@.domain == domain@,
        r@.disallow == Seq::<Seq<char>>::empty(),
        r@.crawl_delay is None,
        r@.fetched_at == fetched_at,
{
    let r = DomainRecord { domain: domain.to_string(), disallow: Vec::new(), crawl_delay: None, fetched_at };
    assert(r@.disallow =~= Seq::<Seq<char>>::empty());
    r
}

/// A record with no rules for `domain`, as read now: what the crawler keeps
/// when robots.txt cannot be had.
pub fn permissive_record(domain: &str) -> (r: DomainRecord)
    ensures
        r@.domain == domain@,
        r@.disallow == Seq::<Seq<char>>::empty(),
        r@.crawl_delay is None,
{
    permissive_record_at(domain, now_utc())
}

/// Whether an HTTP status is a success (2xx).
pub open spec fn success_status(status: u16) -> bool {
    200 <= status <= 299
}

/// The rules that a response to the robots.txt request gives: those of the
/// body of a successful (2xx) response; none when the request failed
/// (`None`) or the server answered otherwise (404: there is no robots.txt,
/// so there are no restrictions).
pub open spec fn response_rules(response: Option<(u16, Seq<char>)>) -> RobotsScan {
    match response {
        Some((status, body)) => if success_status(status) {
            robots_rules(body)
        } else {
            scan_start()
        },
        None => scan_start(),
    }
}

/// The record kept after requesting robots.txt of `domain` at `fetched_at`,
/// given the response's status and body, or `None` when the request failed.
pub fn robots_record_at(domain: &str, response: Option<(u16, String)>, fetched_at: Timestamp) -> (r:
    DomainRecord)
    ensures
        r@.domain == domain@,
        r@.fetched_at == fetched_at,
        r@.disallow == response_rules(
            match response {
                Some((status, body)) => Some((status, body@)),
                None => None,
            },
        ).disallow,
        r@.crawl_delay == response_rules(
            match response {
                Some((status, body)) => Some((status, body@)),
                None => None,
            },
        ).crawl_delay,
{
    match response {
        Some((status, body)) => {
            if 200 <= status && status <= 299 {
                parse_robots_at(body.as_str(), domain, fetched_at)
            } else {
                permissive_record_at(domain, fetched_at)
            }
        },
        None => permissive_record_at(domain, fetched_at),
    }
}

/// The record kept after requesting robots.txt of `domain` now (the clock's
/// reading is not stated), given the response's status and body, or `None`
/// when the request failed.
pub fn robots_record(domain: &str, response: Option<(u16, String)>) -> (r: DomainRecord)
    ensures
        r@.domain == domain@,
        r@.disallow == response_rules(
            match response {
                Some((status, body)) => Some((status, body@)),
                None => None,
            },
        ).disallow,
        r@.crawl_delay == response_rules(
            match response {
                Some((status, body)) => Some((status, body@)),
                None => None,
            },
        ).crawl_delay,
{
    robots_record_at(domain, response, now_utc())
}

/// Whether `path` begins with none of the `rules`.
pub open spec fn path_allowed(rules: Seq<Seq<char>>, path: Seq<char>) -> bool {
    !exists|i: int| 0 <= i < rules.len() && starts_with_spec(path, #[trigger] rules[i])
}

/// Whether the rules of `record` let this crawler fetch `url`: the URL's
/// path (empty when it does not parse) begins with none of the rules.
pub fn is_allowed(record: &DomainRecord, url: &str) -> (r: bool)
    ensures
        r == path_allowed(record@.disallow, path_of(url@)),
{
    let path = url_path(url);
    let pv = chars_of(path.as_str());
    let ghost rules = record@.disallow;
    let mut i: usize = 0;
    while i < record.disallow.len()
        invariant
            i <= record.disallow@.len(),
            rules == record@.disallow,
            rules.len() == record.disallow@.len(),
            pv@ == path_of(url@),
            forall|j: int| 0 <= j < i ==> !starts_with_spec(pv@, #[trigger] rules[j]),
        decreases record.disallow@.len() - i,
    {
        let rule = chars_of(record.disallow[i].as_str());
        assert(rule@ == rules[i as int]);
        assert(pv@.subrange(0, pv@.len() as int) == pv@);
        if range_starts_with(&pv, 0, pv.len(), &rule) {
            return false;
        }
        i = i + 1;
    }
    true
}

/// Where the robots.txt of `domain` is fetched from: `https://{domain}/robots.txt`.
pub open spec fn robots_url_spec(domain: Seq<char>) -> Seq<char> {
    seq!['h', 't', 't', 'p', 's', ':', '/', '/'] + domain + seq![
        '/',
        'r',
        'o',
        'b',
        'o',
        't',
        's',
        '.',
        't',
        'x',
        't',
    ]
}

/// `format!("https://{domain}/robots.txt")`.
pub fn robots_url(domain: &str) -> (r: String)
    ensures
        r@ == robots_url_spec(domain@),
{
    let head = "https://";
    let tail = "/robots.txt";
    proof {
        reveal_strlit("https://");
        reveal_strlit("/robots.txt");
    }
    let mut r = String::from_str(head);
    r.append(domain);
    r.append(tail);
    r
}


/// A record without rules allows every URL.
pub proof fn law_no_rules_allow_every_url(rules: Seq<Seq<char>>, url: Seq<char>)
    requires
        rules.len() == 0,
    ensures
        path_allowed(rules, path_of(url)),
{
}

/// A path is allowed exactly when no rule is a prefix of it: a rule of any
/// length that begins the path, `/` among them, forbids it.
pub proof fn law_allowed_iff_no_prefix_rule(rules: Seq<Seq<char>>, path: Seq<char>)
    ensures
        path_allowed(rules, path) <==> forall|i: int| 0 <= i < rules.len() ==> !(rules[i].len()
            <= path.len() && path.subrange(0, rules[i].len() as int) == #[trigger] rules[i]),
{
    assert forall|i: int| 0 <= i < rules.len() implies (starts_with_spec(path, rules[i]) <==> (
    rules[i].len() <= path.len() && path.subrange(0, rules[i].len() as int) == #[trigger] rules[i])) by {
        if rules[i].len() <= path.len() {
            assert(path.take(rules[i].len() as int) == path.subrange(0, rules[i].len() as int));
        }
    }
}

/// The rule `/` forbids every path that begins with `/`, which every
/// parsed `http` or `https` URL's path does.
pub proof fn law_root_rule_forbids_all(rules: Seq<Seq<char>>, path: Seq<char>)
    requires
        rules.contains(seq!['/']),
        path.len() > 0,
        path[0] == '/',
    ensures
        !path_allowed(rules, path),
{
    let i = choose|i: int| 0 <= i < rules.len() && rules[i] == seq!['/'];
    law_allowed_iff_no_prefix_rule(rules, path);
    assert(path.subrange(0, 1) == seq!['/']);
    assert(rules[i].len() <= path.len() && path.subrange(0, rules[i].len() as int) == rules[i]);
}

/// Adding rules never allows more: whatever a record with the rules `more`
/// allows, a record with fewer rules (each among `more`) allows too.
pub proof fn law_more_rules_allow_less(fewer: Seq<Seq<char>>, more: Seq<Seq<char>>, path: Seq<char>)
    requires
        forall|i: int| 0 <= i < fewer.len() ==> more.contains(#[trigger] fewer[i]),
        path_allowed(more, path),
    ensures
        path_allowed(fewer, path),
{
    if !path_allowed(fewer, path) {
        let i = choose|i: int| 0 <= i < fewer.len() && starts_with_spec(path, #[trigger] fewer[i]);
        assert(more.contains(fewer[i]));
        let j = choose|j: int| 0 <= j < more.len() && more[j] == fewer[i];
        assert(starts_with_spec(path, more[j]));
    }
}

/// Whether some line of `lines`, trimmed, opens a `User-agent` group.
pub open spec fn has_user_agent_line(lines: Seq<Seq<char>>) -> bool {
    exists|i: int| 0 <= i < lines.len() && starts_with_spec(trim_spec(#[trigger] lines[i]), user_agent_tag())
}

proof fn lemma_no_group_no_rules(lines: Seq<Seq<char>>)
    requires
        !has_user_agent_line(lines),
    ensures
        scan_lines(lines) == scan_start(),
    decreases lines.len(),
{
    if lines.len() > 0 {
        let t = lines.drop_last();
        assert forall|i: int| 0 <= i < t.len() implies !starts_with_spec(trim_spec(#[trigger] t[i]), user_agent_tag()) by {
            assert(t[i] == lines[i]);
        }
        lemma_no_group_no_rules(t);
        assert(lines.last() == lines[lines.len() - 1]);
    }
}

/// Rules come only from `User-agent` groups: a robots.txt in which no line
/// opens a group (an empty one among them) sets no rules and no delay.
pub proof fn law_no_user_agent_no_rules(text: Seq<char>)
    requires
        !has_user_agent_line(lines_spec(text)),
    ensures
        robots_rules(text).disallow.len() == 0,
        robots_rules(text).crawl_delay is None,
{
    lemma_no_group_no_rules(lines_spec(text));
}

proof fn lemma_rules_nonempty(lines: Seq<Seq<char>>)
    ensures
        forall|i: int| 0 <= i < scan_lines(lines).disallow.len() ==> #[trigger] scan_lines(lines).disallow[i].len() > 0,
        forall|i: int| 0 <= i < scan_lines(lines).disallow.len() ==> trim_spec(
            #[trigger] scan_lines(lines).disallow[i],
        ) == scan_lines(lines).disallow[i],
    decreases lines.len(),
{
    if lines.len() > 0 {
        lemma_rules_nonempty(lines.drop_last());
        let line = trim_spec(lines.last());
        lemma_trim_idempotent(strip_all_prefix(line, disallow_tag()));
    }
}

/// No rule is empty: an empty `Disallow:` value disallows nothing.
pub proof fn law_rules_nonempty(text: Seq<char>)
    ensures
        forall|i: int| 0 <= i < robots_rules(text).disallow.len() ==> #[trigger] robots_rules(text).disallow[i].len() > 0,
{
    lemma_rules_nonempty(lines_spec(text));
}

/// Every rule is trimmed: a rule has no white space at either end, so it is
/// matched against paths as written after `Disallow:`.
pub proof fn law_rules_trimmed(text: Seq<char>)
    ensures
        forall|i: int| 0 <= i < robots_rules(text).disallow.len() ==> trim_spec(
            #[trigger] robots_rules(text).disallow[i],
        ) == robots_rules(text).disallow[i],
{
    lemma_rules_nonempty(lines_spec(text));
}

/// A group for another agent adds nothing: after a `User-agent` line that
/// names neither `*` nor this crawler, the lines up to the next `User-agent`
/// line leave the rules and the delay as they were.
pub proof fn law_other_agent_group_ignored(
    before: Seq<Seq<char>>,
    agent_line: Seq<char>,
    group: Seq<Seq<char>>,
)
    requires
        starts_with_spec(trim_spec(agent_line), user_agent_tag()),
        !agent_applies(tag_value(trim_spec(agent_line), user_agent_tag())),
        !has_user_agent_line(group),
    ensures
        scan_lines(before.push(agent_line) + group).disallow == scan_lines(before).disallow,
        scan_lines(before.push(agent_line) + group).crawl_delay == scan_lines(before).crawl_delay,
        !scan_lines(before.push(agent_line) + group).applicable,
    decreases group.len(),
{
    if group.len() == 0 {
        assert(before.push(agent_line) + group == before.push(agent_line));
        assert(before.push(agent_line).drop_last() == before);
    } else {
        let g = group.drop_last();
        assert forall|i: int| 0 <= i < g.len() implies !starts_with_spec(trim_spec(#[trigger] g[i]), user_agent_tag()) by {
            assert(g[i] == group[i]);
        }
        law_other_agent_group_ignored(before, agent_line, g);
        let all = before.push(agent_line) + group;
        assert(all.drop_last() == before.push(agent_line) + g);
        assert(all.last() == group[group.len() - 1]);
    }
}

} // verus!
