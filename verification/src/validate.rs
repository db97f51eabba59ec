//! The rules an ECU definition must follow before it is used.
//!
//! A definition names request bytes that go straight onto the bus, so the
//! first rule is that every request uses a service from a fixed allowed set:
//! memory and flash services are absent on purpose, so no definition file
//! can ever reach map read/write. The others keep bus tables consistent,
//! keys unique, channel widths decodable, and community-sourced figures
//! attributable.

use vstd::prelude::*;
use crate::schema::{AccessGuide, BusKind, Channel, EcuDefinition, Routine};
use crate::text::{has_prefix, hex2, is_blank, is_blank_str, push_hex2, starts_with, str_eq};

verus! {

/// Service IDs definitions may use, covering KWP2000 and UDS. Absent on
/// purpose: memory/flash services, UDS WriteDataByIdentifier (0x2E) and
/// SecurityAccess (0x27).
pub open spec fn allowed_sid(sid: u8) -> bool {
    sid == 0x10 || sid == 0x14 || sid == 0x18 || sid == 0x19 || sid == 0x1A || sid == 0x21 || sid
        == 0x22 || sid == 0x2F || sid == 0x30 || sid == 0x31 || sid == 0x32 || sid == 0x33 || sid
        == 0x3E
}

pub fn is_allowed_sid(sid: u8) -> (r: bool)
    ensures
        r == allowed_sid(sid),
{
    match sid {
        0x10 | 0x14 | 0x18 | 0x19 | 0x1A | 0x21 | 0x22 | 0x2F | 0x30 | 0x31 | 0x32 | 0x33
        | 0x3E => true,
        _ => false,
    }
}

/// The issues of items `0..n`, item by item, in order.
pub open spec fn issues_upto<A>(f: spec_fn(int) -> Seq<A>, n: nat) -> Seq<A>
    decreases n,
{
    if n == 0 {
        Seq::empty()
    } else {
        issues_upto(f, (n - 1) as nat) + f(n - 1)
    }
}

pub open spec fn one_if(cond: bool, message: Seq<char>) -> Seq<Seq<char>> {
    if cond {
        seq![message]
    } else {
        Seq::empty()
    }
}

pub open spec fn bus_issues(d: EcuDefinition) -> Seq<Seq<char>> {
    match d.ecu.bus {
        BusKind::KLine => one_if(d.init is None, "bus = \"k-line\" requires an [init] table"@)
            + one_if(d.can is Some, "bus = \"k-line\" must not have a [can] table"@),
        BusKind::Can => one_if(d.can is None, "bus = \"can\" requires a [can] table"@) + one_if(
            d.init is Some,
            "bus = \"can\" must not have an [init] table"@,
        ),
    }
}

pub open spec fn valid_length(n: usize) -> bool {
    n == 1 || n == 2 || n == 4
}

pub open spec fn channel_issues(chs: Seq<Channel>, i: int) -> Seq<Seq<char>> {
    one_if(
        exists|j: int| 0 <= j < i && (#[trigger] chs[j]).key@ == chs[i].key@,
        "duplicate channel key '"@ + chs[i].key@ + "'"@,
    ) + one_if(chs[i].request@.len() == 0, "channel '"@ + chs[i].key@ + "' has an empty request"@)
        + one_if(
        !valid_length(chs[i].length),
        "channel '"@ + chs[i].key@ + "' length must be 1, 2 or 4 bytes"@,
    )
}

pub open spec fn routine_key_issues(rs: Seq<Routine>, i: int) -> Seq<Seq<char>> {
    one_if(
        exists|j: int| 0 <= j < i && (#[trigger] rs[j]).key@ == rs[i].key@,
        "duplicate routine key '"@ + rs[i].key@ + "'"@,
    ) + one_if(rs[i].request@.len() == 0, "routine '"@ + rs[i].key@ + "' has an empty request"@)
}

/// A request must name a service, and an allowed one.
pub open spec fn request_issues(req: Seq<u8>, what: Seq<char>) -> Seq<Seq<char>> {
    if req.len() == 0 {
        seq!["'"@ + what + "' has an empty request"@]
    } else if !allowed_sid(req[0]) {
        seq![
            "'"@ + what + "' uses service 0x"@ + hex2(req[0])
                + ", which is not in the allowed set (memory/flash services are intentionally unsupported)"@,
        ]
    } else {
        Seq::empty()
    }
}

pub open spec fn has_channel(chs: Seq<Channel>, key: Seq<char>) -> bool {
    exists|i: int| 0 <= i < chs.len() && (#[trigger] chs[i]).key@ == key
}

pub open spec fn charging_issues(d: EcuDefinition) -> Seq<Seq<char>> {
    match d.charging {
        None => Seq::empty(),
        Some(c) => one_if(
            !c.thresholds_ordered,
            "[charging] needs rest_min_v < charging_min_v < charging_max_v"@,
        ) + one_if(!c.rpm_band_valid, "[charging] needs 0 < check_rpm_min < check_rpm_max"@)
            + one_if(
            !has_channel(d.channels@, "batt"@),
            "[charging] requires a 'batt' channel — the guided test reads it live"@,
        ) + one_if(
            !has_channel(d.channels@, "rpm"@),
            "[charging] requires a 'rpm' channel — the guided test reads it live"@,
        ) + one_if(
            is_blank(c.source@) || !starts_with(c.source_url@, "https://"@),
            "[charging] thresholds are community claims — they need a named source and an https source_url"@,
        ),
    }
}

pub open spec fn any_blank(v: Seq<String>) -> bool {
    exists|i: int| 0 <= i < v.len() && is_blank((#[trigger] v[i])@)
}

/// A citation is a named source with an https URL, both or neither.
pub open spec fn citation_issues(
    prefix: Seq<char>,
    source: Option<String>,
    url: Option<String>,
) -> Seq<Seq<char>> {
    match (source, url) {
        (None, None) => Seq::empty(),
        (Some(s), Some(u)) => one_if(
            is_blank(s@) || !starts_with(u@, "https://"@),
            prefix + " citation needs a named source and an https source_url"@,
        ),
        _ => seq![prefix + " source and source_url go together — set both or neither"@],
    }
}

pub open spec fn guide_issues(label: Seq<char>, guide: Option<AccessGuide>) -> Seq<Seq<char>> {
    match guide {
        None => Seq::empty(),
        Some(g) => one_if(is_blank(g.summary@), "["@ + label + "] needs a non-empty summary"@)
            + one_if(
            any_blank(g.steps@) || any_blank(g.tools@),
            "["@ + label + "] has an empty step or tool entry"@,
        ) + citation_issues("["@ + label + "]"@, g.source, g.source_url),
    }
}

pub open spec fn routine_citation_issues(rs: Seq<Routine>, i: int) -> Seq<Seq<char>> {
    one_if(any_blank(rs[i].tools@), "routine '"@ + rs[i].key@ + "' has an empty tools entry"@)
        + citation_issues("routine '"@ + rs[i].key@ + "'"@, rs[i].source, rs[i].source_url)
}

pub open spec fn channel_request_issues(chs: Seq<Channel>, i: int) -> Seq<Seq<char>> {
    request_issues(chs[i].request@, chs[i].key@)
}

pub open spec fn routine_request_issues(rs: Seq<Routine>, i: int) -> Seq<Seq<char>> {
    request_issues(rs[i].request@, rs[i].key@)
}

/// Every request of the definition with what it is called in messages.
pub open spec fn all_request_issues(d: EcuDefinition) -> Seq<Seq<char>> {
    issues_upto(|i: int| channel_request_issues(d.channels@, i), d.channels@.len()) + issues_upto(
        |i: int| routine_request_issues(d.routines@, i),
        d.routines@.len(),
    ) + request_issues(d.identification.request@, "identification"@) + request_issues(
        d.dtc.read_request@,
        "dtc.read_request"@,
    ) + request_issues(d.dtc.clear_request@, "dtc.clear_request"@)
}

/// Everything wrong with a definition, in the order it is checked.
pub open spec fn definition_issues(d: EcuDefinition) -> Seq<Seq<char>> {
    bus_issues(d) + issues_upto(|i: int| channel_issues(d.channels@, i), d.channels@.len())
        + issues_upto(|i: int| routine_key_issues(d.routines@, i), d.routines@.len())
        + all_request_issues(d) + charging_issues(d) + guide_issues(
        "connector_access"@,
        d.connector_access,
    ) + guide_issues("vacuum_access"@, d.vacuum_access) + issues_upto(
        |i: int| routine_citation_issues(d.routines@, i),
        d.routines@.len(),
    )
}

/// `r` reports the first of `issues`, or none when there are none.
pub open spec fn reports_first(r: Option<String>, issues: Seq<Seq<char>>) -> bool {
    &&& r is None <==> issues.len() == 0
    &&& r matches Some(m) ==> m@ == issues[0]
}

pub proof fn lemma_first_issue<A>(f: spec_fn(int) -> Seq<A>, k: nat, n: nat)
    requires
        k < n,
        issues_upto(f, k).len() == 0,
        f(k as int).len() > 0,
    ensures
        issues_upto(f, n).len() > 0,
        issues_upto(f, n)[0] == f(k as int)[0],
    decreases n,
{
    if n == k + 1 {
        assert(issues_upto(f, n) =~= issues_upto(f, k) + f(k as int));
    } else {
        lemma_first_issue(f, k, (n - 1) as nat);
    }
}

/// No issues in all items means no issues in any one of them.
pub proof fn lemma_no_issues_each<A>(f: spec_fn(int) -> Seq<A>, n: nat)
    requires
        issues_upto(f, n).len() == 0,
    ensures
        forall|i: int| 0 <= i < n ==> (#[trigger] f(i)).len() == 0,
    decreases n,
{
    if n > 0 {
        assert(issues_upto(f, n) == issues_upto(f, (n - 1) as nat) + f(n - 1));
        lemma_no_issues_each(f, (n - 1) as nat);
    }
}

/// The first issue of a concatenation is that of the first non-empty part.
proof fn lemma_first_of_concat(a: Seq<Seq<char>>, b: Seq<Seq<char>>)
    ensures
        a.len() == 0 ==> a + b == b,
        a.len() > 0 ==> (a + b).len() > 0 && (a + b)[0] == a[0],
{
    if a.len() == 0 {
        assert(a + b =~= b);
    }
}

fn message3(a: &str, b: &str, c: &str) -> (s: String)
    ensures
        s@ == a@ + b@ + c@,
{
    let mut s = String::from_str(a);
    s.append(b);
    s.append(c);
    s
}

fn first_bus_issue(d: &EcuDefinition) -> (r: Option<String>)
    ensures
        reports_first(r, bus_issues(*d)),
{
    match d.ecu.bus {
        BusKind::KLine => {
            if d.init.is_none() {
                return Some(String::from_str("bus = \"k-line\" requires an [init] table"));
            }
            if d.can.is_some() {
                return Some(String::from_str("bus = \"k-line\" must not have a [can] table"));
            }
            assert(bus_issues(*d) =~= Seq::<Seq<char>>::empty());
        },
        BusKind::Can => {
            if d.can.is_none() {
                return Some(String::from_str("bus = \"can\" requires a [can] table"));
            }
            if d.init.is_some() {
                return Some(String::from_str("bus = \"can\" must not have an [init] table"));
            }
            assert(bus_issues(*d) =~= Seq::<Seq<char>>::empty());
        },
    }
    None
}

fn channel_key_seen(chs: &Vec<Channel>, i: usize) -> (r: bool)
    requires
        i < chs@.len(),
    ensures
        r == exists|k: int| 0 <= k < i && (#[trigger] chs@[k]).key@ == chs@[i as int].key@,
{
    let mut j: usize = 0;
    while j < i
        invariant
            j <= i < chs@.len(),
            forall|k: int| 0 <= k < j ==> (#[trigger] chs@[k]).key@ != chs@[i as int].key@,
        decreases i - j,
    {
        if chs[j].key == chs[i].key {
            return true;
        }
        j = j + 1;
    }
    false
}

fn routine_key_seen(rs: &Vec<Routine>, i: usize) -> (r: bool)
    requires
        i < rs@.len(),
    ensures
        r == exists|k: int| 0 <= k < i && (#[trigger] rs@[k]).key@ == rs@[i as int].key@,
{
    let mut j: usize = 0;
    while j < i
        invariant
            j <= i < rs@.len(),
            forall|k: int| 0 <= k < j ==> (#[trigger] rs@[k]).key@ != rs@[i as int].key@,
        decreases i - j,
    {
        if rs[j].key == rs[i].key {
            return true;
        }
        j = j + 1;
    }
    false
}

fn first_channel_issue(chs: &Vec<Channel>) -> (r: Option<String>)
    ensures
        reports_first(r, issues_upto(|i: int| channel_issues(chs@, i), chs@.len())),
{
    let ghost f = |i: int| channel_issues(chs@, i);
    let mut i: usize = 0;
    while i < chs.len()
        invariant
            i <= chs@.len(),
            f == (|i: int| channel_issues(chs@, i)),
            issues_upto(f, i as nat).len() == 0,
        decreases chs@.len() - i,
    {
        let ch = &chs[i];
        let dup = channel_key_seen(chs, i);
        let issue = if dup {
            Some(message3("duplicate channel key '", ch.key.as_str(), "'"))
        } else if ch.request.len() == 0 {
            Some(message3("channel '", ch.key.as_str(), "' has an empty request"))
        } else if !(ch.length == 1 || ch.length == 2 || ch.length == 4) {
            Some(message3("channel '", ch.key.as_str(), "' length must be 1, 2 or 4 bytes"))
        } else {
            None
        };
        proof {
            assert(reports_first(issue, f(i as int)));
        }
        if issue.is_some() {
            proof {
                lemma_first_issue(f, i as nat, chs@.len());
            }
            return issue;
        }
        assert(issues_upto(f, (i + 1) as nat) =~= issues_upto(f, i as nat) + f(i as int));
        i = i + 1;
    }
    None
}

fn first_routine_key_issue(rs: &Vec<Routine>) -> (r: Option<String>)
    ensures
        reports_first(r, issues_upto(|i: int| routine_key_issues(rs@, i), rs@.len())),
{
    let ghost f = |i: int| routine_key_issues(rs@, i);
    let mut i: usize = 0;
    while i < rs.len()
        invariant
            i <= rs@.len(),
            f == (|i: int| routine_key_issues(rs@, i)),
            issues_upto(f, i as nat).len() == 0,
        decreases rs@.len() - i,
    {
        let r = &rs[i];
        let issue = if routine_key_seen(rs, i) {
            Some(message3("duplicate routine key '", r.key.as_str(), "'"))
        } else if r.request.len() == 0 {
            Some(message3("routine '", r.key.as_str(), "' has an empty request"))
        } else {
            None
        };
        proof {
            assert(reports_first(issue, f(i as int)));
        }
        if issue.is_some() {
            proof {
                lemma_first_issue(f, i as nat, rs@.len());
            }
            return issue;
        }
        assert(issues_upto(f, (i + 1) as nat) =~= issues_upto(f, i as nat) + f(i as int));
        i = i + 1;
    }
    None
}

fn first_request_issue(req: &Vec<u8>, what: &str) -> (r: Option<String>)
    ensures
        reports_first(r, request_issues(req@, what@)),
{
    if req.len() == 0 {
        return Some(message3("'", what, "' has an empty request"));
    }
    let sid = req[0];
    if !is_allowed_sid(sid) {
        let mut m = message3("'", what, "' uses service 0x");
        push_hex2(&mut m, sid);
        m.append(
            ", which is not in the allowed set (memory/flash services are intentionally unsupported)",
        );
        return Some(m);
    }
    None
}

fn first_channel_request_issue(chs: &Vec<Channel>) -> (r: Option<String>)
    ensures
        reports_first(r, issues_upto(|i: int| channel_request_issues(chs@, i), chs@.len())),
{
    let ghost f = |i: int| channel_request_issues(chs@, i);
    let mut i: usize = 0;
    while i < chs.len()
        invariant
            i <= chs@.len(),
            f == (|i: int| channel_request_issues(chs@, i)),
            issues_upto(f, i as nat).len() == 0,
        decreases chs@.len() - i,
    {
        let issue = first_request_issue(&chs[i].request, chs[i].key.as_str());
        if issue.is_some() {
            proof {
                lemma_first_issue(f, i as nat, chs@.len());
            }
            return issue;
        }
        assert(issues_upto(f, (i + 1) as nat) =~= issues_upto(f, i as nat) + f(i as int));
        i = i + 1;
    }
    None
}

fn first_routine_request_issue(rs: &Vec<Routine>) -> (r: Option<String>)
    ensures
        reports_first(r, issues_upto(|i: int| routine_request_issues(rs@, i), rs@.len())),
{
    let ghost f = |i: int| routine_request_issues(rs@, i);
    let mut i: usize = 0;
    while i < rs.len()
        invariant
            i <= rs@.len(),
            f == (|i: int| routine_request_issues(rs@, i)),
            issues_upto(f, i as nat).len() == 0,
        decreases rs@.len() - i,
    {
        let issue = first_request_issue(&rs[i].request, rs[i].key.as_str());
        if issue.is_some() {
            proof {
                lemma_first_issue(f, i as nat, rs@.len());
            }
            return issue;
        }
        assert(issues_upto(f, (i + 1) as nat) =~= issues_upto(f, i as nat) + f(i as int));
        i = i + 1;
    }
    None
}

fn find_channel(chs: &Vec<Channel>, key: &str) -> (r: bool)
    ensures
        r == has_channel(chs@, key@),
{
    let mut i: usize = 0;
    while i < chs.len()
        invariant
            i <= chs@.len(),
            forall|k: int| 0 <= k < i ==> (#[trigger] chs@[k]).key@ != key@,
        decreases chs@.len() - i,
    {
        if str_eq(chs[i].key.as_str(), key) {
            return true;
        }
        i = i + 1;
    }
    false
}

fn has_blank(v: &Vec<String>) -> (r: bool)
    ensures
        r == any_blank(v@),
{
    let mut i: usize = 0;
    while i < v.len()
        invariant
            i <= v@.len(),
            forall|k: int| 0 <= k < i ==> !is_blank((#[trigger] v@[k])@),
        decreases v@.len() - i,
    {
        if is_blank_str(v[i].as_str()) {
            return true;
        }
        i = i + 1;
    }
    false
}

fn first_charging_issue(d: &EcuDefinition) -> (r: Option<String>)
    ensures
        reports_first(r, charging_issues(*d)),
{
    match &d.charging {
        None => None,
        Some(c) => {
            if !c.thresholds_ordered {
                return Some(
                    String::from_str("[charging] needs rest_min_v < charging_min_v < charging_max_v"),
                );
            }
            if !c.rpm_band_valid {
                return Some(String::from_str("[charging] needs 0 < check_rpm_min < check_rpm_max"));
            }
            if !find_channel(&d.channels, "batt") {
                return Some(
                    String::from_str(
                        "[charging] requires a 'batt' channel — the guided test reads it live",
                    ),
                );
            }
            if !find_channel(&d.channels, "rpm") {
                return Some(
                    String::from_str(
                        "[charging] requires a 'rpm' channel — the guided test reads it live",
                    ),
                );
            }
            if is_blank_str(c.source.as_str()) || !has_prefix(c.source_url.as_str(), "https://") {
                return Some(
                    String::from_str(
                        "[charging] thresholds are community claims — they need a named source and an https source_url",
                    ),
                );
            }
            assert(charging_issues(*d) =~= Seq::<Seq<char>>::empty());
            None
        },
    }
}

fn first_citation_issue(prefix: &str, source: &Option<String>, url: &Option<String>) -> (r: Option<
    String,
>)
    ensures
        reports_first(r, citation_issues(prefix@, *source, *url)),
{
    match (source, url) {
        (None, None) => None,
        (Some(s), Some(u)) => {
            if is_blank_str(s.as_str()) || !has_prefix(u.as_str(), "https://") {
                let mut m = String::from_str(prefix);
                m.append(" citation needs a named source and an https source_url");
                Some(m)
            } else {
                None
            }
        },
        _ => {
            let mut m = String::from_str(prefix);
            m.append(" source and source_url go together — set both or neither");
            Some(m)
        },
    }
}

fn first_guide_issue(label: &str, guide: &Option<AccessGuide>) -> (r: Option<String>)
    ensures
        reports_first(r, guide_issues(label@, *guide)),
{
    match guide {
        None => None,
        Some(g) => {
            if is_blank_str(g.summary.as_str()) {
                return Some(message3("[", label, "] needs a non-empty summary"));
            }
            if has_blank(&g.steps) || has_blank(&g.tools) {
                return Some(message3("[", label, "] has an empty step or tool entry"));
            }
            let prefix = message3("[", label, "]");
            let r = first_citation_issue(prefix.as_str(), &g.source, &g.source_url);
            proof {
                let a = one_if(is_blank(g.summary@), "["@ + label@ + "] needs a non-empty summary"@)
                    + one_if(
                    any_blank(g.steps@) || any_blank(g.tools@),
                    "["@ + label@ + "] has an empty step or tool entry"@,
                );
                assert(a =~= Seq::<Seq<char>>::empty());
                lemma_first_of_concat(a, citation_issues(prefix@, g.source, g.source_url));
            }
            r
        },
    }
}

fn first_routine_citation_issue(rs: &Vec<Routine>) -> (r: Option<String>)
    ensures
        reports_first(r, issues_upto(|i: int| routine_citation_issues(rs@, i), rs@.len())),
{
    let ghost f = |i: int| routine_citation_issues(rs@, i);
    let mut i: usize = 0;
    while i < rs.len()
        invariant
            i <= rs@.len(),
            f == (|i: int| routine_citation_issues(rs@, i)),
            issues_upto(f, i as nat).len() == 0,
        decreases rs@.len() - i,
    {
        let r = &rs[i];
        let issue = if has_blank(&r.tools) {
            Some(message3("routine '", r.key.as_str(), "' has an empty tools entry"))
        } else {
            let prefix = message3("routine '", r.key.as_str(), "'");
            let c = first_citation_issue(prefix.as_str(), &r.source, &r.source_url);
            proof {
                let a = one_if(
                    any_blank(r.tools@),
                    "routine '"@ + r.key@ + "' has an empty tools entry"@,
                );
                assert(a =~= Seq::<Seq<char>>::empty());
                lemma_first_of_concat(a, citation_issues(prefix@, r.source, r.source_url));
            }
            c
        };
        proof {
            assert(reports_first(issue, f(i as int)));
        }
        if issue.is_some() {
            proof {
                lemma_first_issue(f, i as nat, rs@.len());
            }
            return issue;
        }
        assert(issues_upto(f, (i + 1) as nat) =~= issues_upto(f, i as nat) + f(i as int));
        i = i + 1;
    }
    None
}

/// The first issue of `a + rest` when `a` is empty and `b` is not.
proof fn lemma_first_after_empty(a: Seq<Seq<char>>, b: Seq<Seq<char>>, rest: Seq<Seq<char>>)
    requires
        a.len() == 0,
        b.len() > 0,
    ensures
        (a + b + rest).len() > 0,
        (a + b + rest)[0] == b[0],
{
    assert((a + b + rest)[0] == (a + b)[0]);
}

impl EcuDefinition {
    /// Check the definition against the rules; the first problem found,
    /// in the order of `definition_issues`, is the error.
    pub fn validate(&self) -> (r: Result<(), String>)
        ensures
            r is Ok <==> definition_issues(*self).len() == 0,
            r matches Err(m) ==> m@ == definition_issues(*self)[0],
            self.charging matches Some(c) && !c.rpm_band_valid ==> r is Err,
            self.charging matches Some(c) && !c.thresholds_ordered ==> r is Err,
    {
        proof {
            let d = *self;
            if d.charging is Some && !d.charging->Some_0.rpm_band_valid {
                lemma_charging_band_reported(d);
            }
            if definition_issues(*self).len() == 0 {
                lemma_valid_definition(*self);
            }
        }
        let ghost d = *self;
        let ghost g1 = bus_issues(d);
        let ghost g2 = issues_upto(|i: int| channel_issues(d.channels@, i), d.channels@.len());
        let ghost g3 = issues_upto(|i: int| routine_key_issues(d.routines@, i), d.routines@.len());
        let ghost r1 = issues_upto(
            |i: int| channel_request_issues(d.channels@, i),
            d.channels@.len(),
        );
        let ghost r2 = issues_upto(
            |i: int| routine_request_issues(d.routines@, i),
            d.routines@.len(),
        );
        let ghost r3 = request_issues(d.identification.request@, "identification"@);
        let ghost r4 = request_issues(d.dtc.read_request@, "dtc.read_request"@);
        let ghost r5 = request_issues(d.dtc.clear_request@, "dtc.clear_request"@);
        let ghost g5 = charging_issues(d);
        let ghost g6 = guide_issues("connector_access"@, d.connector_access);
        let ghost g7 = guide_issues("vacuum_access"@, d.vacuum_access);
        let ghost g8 = issues_upto(
            |i: int| routine_citation_issues(d.routines@, i),
            d.routines@.len(),
        );
        let ghost all = definition_issues(d);
        assert(all == g1 + g2 + g3 + (r1 + r2 + r3 + r4 + r5) + g5 + g6 + g7 + g8);
        let ghost empty = Seq::<Seq<char>>::empty();

        if let Some(m) = first_bus_issue(self) {
            proof {
                lemma_first_after_empty(empty, g1, all.subrange(g1.len() as int, all.len() as int));
                assert(all =~= empty + g1 + all.subrange(g1.len() as int, all.len() as int));
            }
            return Err(m);
        }
        if let Some(m) = first_channel_issue(&self.channels) {
            assert(all[0] == g2[0]);
            return Err(m);
        }
        if let Some(m) = first_routine_key_issue(&self.routines) {
            assert(all[0] == g3[0]);
            return Err(m);
        }
        if let Some(m) = first_channel_request_issue(&self.channels) {
            assert(all[0] == r1[0]);
            return Err(m);
        }
        if let Some(m) = first_routine_request_issue(&self.routines) {
            assert(all[0] == r2[0]);
            return Err(m);
        }
        if let Some(m) = first_request_issue(&self.identification.request, "identification") {
            assert(all[0] == r3[0]);
            return Err(m);
        }
        if let Some(m) = first_request_issue(&self.dtc.read_request, "dtc.read_request") {
            assert(all[0] == r4[0]);
            return Err(m);
        }
        if let Some(m) = first_request_issue(&self.dtc.clear_request, "dtc.clear_request") {
            assert(all[0] == r5[0]);
            return Err(m);
        }
        if let Some(m) = first_charging_issue(self) {
            assert(all[0] == g5[0]);
            return Err(m);
        }
        if let Some(m) = first_guide_issue("connector_access", &self.connector_access) {
            assert(all[0] == g6[0]);
            return Err(m);
        }
        if let Some(m) = first_guide_issue("vacuum_access", &self.vacuum_access) {
            assert(all[0] == g7[0]);
            return Err(m);
        }
        if let Some(m) = first_routine_citation_issue(&self.routines) {
            assert(all[0] == g8[0]);
            return Err(m);
        }
        assert(all.len() == 0);
        Ok(())
    }
}

/// A request that names an allowed service.
pub open spec fn allowed_request(req: Seq<u8>) -> bool {
    req.len() > 0 && allowed_sid(req[0])
}

/// What a definition without issues guarantees: every request it can put
/// on the bus names an allowed service (so none reaches memory or flash),
/// keys are unique, channel widths decodable, and the bus table matches
/// the bus kind.
pub proof fn lemma_valid_definition(d: EcuDefinition)
    requires
        definition_issues(d).len() == 0,
    ensures
        forall|i: int| 0 <= i < d.channels@.len() ==> allowed_request(#[trigger] d.channels@[i].request@),
        forall|i: int| 0 <= i < d.routines@.len() ==> allowed_request(#[trigger] d.routines@[i].request@),
        allowed_request(d.identification.request@),
        allowed_request(d.dtc.read_request@),
        allowed_request(d.dtc.clear_request@),
        forall|i: int, j: int|
            0 <= i < j < d.channels@.len() ==> (#[trigger] d.channels@[i]).key@ != (
            #[trigger] d.channels@[j]).key@,
        forall|i: int, j: int|
            0 <= i < j < d.routines@.len() ==> (#[trigger] d.routines@[i]).key@ != (
            #[trigger] d.routines@[j]).key@,
        forall|i: int| 0 <= i < d.channels@.len() ==> valid_length(#[trigger] d.channels@[i].length),
        d.ecu.bus == BusKind::KLine ==> d.init is Some && d.can is None,
        d.ecu.bus == BusKind::Can ==> d.can is Some && d.init is None,
        d.charging matches Some(c) ==> {
            &&& c.thresholds_ordered
            &&& c.rpm_band_valid
            &&& has_channel(d.channels@, "batt"@)
            &&& has_channel(d.channels@, "rpm"@)
            &&& !is_blank(c.source@)
            &&& starts_with(c.source_url@, "https://"@)
        },
{
    let fc = |i: int| channel_issues(d.channels@, i);
    let fr = |i: int| routine_key_issues(d.routines@, i);
    let fcr = |i: int| channel_request_issues(d.channels@, i);
    let frr = |i: int| routine_request_issues(d.routines@, i);
    let g2 = issues_upto(fc, d.channels@.len());
    let g3 = issues_upto(fr, d.routines@.len());
    let r1 = issues_upto(fcr, d.channels@.len());
    let r2 = issues_upto(frr, d.routines@.len());
    let r3 = request_issues(d.identification.request@, "identification"@);
    let r4 = request_issues(d.dtc.read_request@, "dtc.read_request"@);
    let r5 = request_issues(d.dtc.clear_request@, "dtc.clear_request"@);
    assert(definition_issues(d) == bus_issues(d) + g2 + g3 + (r1 + r2 + r3 + r4 + r5)
        + charging_issues(d) + guide_issues("connector_access"@, d.connector_access)
        + guide_issues("vacuum_access"@, d.vacuum_access) + issues_upto(
        |i: int| routine_citation_issues(d.routines@, i),
        d.routines@.len(),
    ));
    assert(bus_issues(d).len() == 0 && g2.len() == 0 && g3.len() == 0 && r1.len() == 0 && r2.len()
        == 0 && r3.len() == 0 && r4.len() == 0 && r5.len() == 0 && charging_issues(d).len() == 0);
    lemma_no_issues_each(fc, d.channels@.len());
    lemma_no_issues_each(fr, d.routines@.len());
    lemma_no_issues_each(fcr, d.channels@.len());
    lemma_no_issues_each(frr, d.routines@.len());
    assert forall|i: int| 0 <= i < d.channels@.len() implies allowed_request(
        #[trigger] d.channels@[i].request@,
    ) by {
        assert(fcr(i).len() == 0);
    }
    assert forall|i: int| 0 <= i < d.routines@.len() implies allowed_request(
        #[trigger] d.routines@[i].request@,
    ) by {
        assert(frr(i).len() == 0);
    }
    assert forall|i: int, j: int| 0 <= i < j < d.channels@.len() implies (
    #[trigger] d.channels@[i]).key@ != (#[trigger] d.channels@[j]).key@ by {
        assert(fc(j).len() == 0);
    }
    assert forall|i: int, j: int| 0 <= i < j < d.routines@.len() implies (
    #[trigger] d.routines@[i]).key@ != (#[trigger] d.routines@[j]).key@ by {
        assert(fr(j).len() == 0);
    }
    assert forall|i: int| 0 <= i < d.channels@.len() implies valid_length(
        #[trigger] d.channels@[i].length,
    ) by {
        assert(fc(i).len() == 0);
    }
}

/// A citation given as a named source with an https URL, or not at all.
pub open spec fn well_cited(source: Option<String>, url: Option<String>) -> bool {
    &&& (source is Some <==> url is Some)
    &&& source matches Some(s) ==> !is_blank(s@)
    &&& url matches Some(u) ==> starts_with(u@, "https://"@)
}

proof fn lemma_no_citation_issues(prefix: Seq<char>, source: Option<String>, url: Option<String>)
    requires
        citation_issues(prefix, source, url).len() == 0,
    ensures
        well_cited(source, url),
{
}

proof fn lemma_guide_ok(label: Seq<char>, guide: Option<AccessGuide>)
    requires
        guide_issues(label, guide).len() == 0,
    ensures
        guide matches Some(g) ==> !is_blank(g.summary@) && !any_blank(g.steps@) && !any_blank(g.tools@)
            && well_cited(g.source, g.source_url),
{
    if guide is Some {
        let g = guide->Some_0;
        lemma_no_citation_issues("["@ + label + "]"@, g.source, g.source_url);
    }
}

proof fn lemma_routine_citations_ok(rs: Seq<Routine>)
    requires
        issues_upto(|i: int| routine_citation_issues(rs, i), rs.len()).len() == 0,
    ensures
        forall|i: int| 0 <= i < rs.len() ==> !any_blank(#[trigger] rs[i].tools@) && well_cited(rs[i].source, rs[i].source_url),
{
    let fc = |i: int| routine_citation_issues(rs, i);
    lemma_no_issues_each(fc, rs.len());
    assert forall|i: int| 0 <= i < rs.len() implies !any_blank(#[trigger] rs[i].tools@) && well_cited(
        rs[i].source,
        rs[i].source_url,
    ) by {
        assert(fc(i).len() == 0);
        lemma_no_citation_issues("routine '"@ + rs[i].key@ + "'"@, rs[i].source, rs[i].source_url);
    }
}

/// Law: what a definition without issues guarantees of its access guides
/// and routine citations: each guide has a summary and no empty step or
/// tool, no routine lists an empty tool, and every citation is a named
/// source with an https URL, or absent altogether.
pub proof fn lemma_valid_definition_cited(d: EcuDefinition)
    requires
        definition_issues(d).len() == 0,
    ensures
        d.connector_access matches Some(g) ==> !is_blank(g.summary@) && !any_blank(g.steps@) && !any_blank(
            g.tools@,
        ) && well_cited(g.source, g.source_url),
        d.vacuum_access matches Some(g) ==> !is_blank(g.summary@) && !any_blank(g.steps@) && !any_blank(
            g.tools@,
        ) && well_cited(g.source, g.source_url),
        forall|i: int|
            0 <= i < d.routines@.len() ==> !any_blank(#[trigger] d.routines@[i].tools@) && well_cited(
                d.routines@[i].source,
                d.routines@[i].source_url,
            ),
{
    let g6 = guide_issues("connector_access"@, d.connector_access);
    let g7 = guide_issues("vacuum_access"@, d.vacuum_access);
    let g8 = issues_upto(|i: int| routine_citation_issues(d.routines@, i), d.routines@.len());
    let pre = bus_issues(d) + issues_upto(|i: int| channel_issues(d.channels@, i), d.channels@.len())
        + issues_upto(|i: int| routine_key_issues(d.routines@, i), d.routines@.len()) + all_request_issues(d)
        + charging_issues(d);
    assert(definition_issues(d) == pre + g6 + g7 + g8);
    assert(g6.len() == 0 && g7.len() == 0 && g8.len() == 0);
    lemma_guide_ok("connector_access"@, d.connector_access);
    lemma_guide_ok("vacuum_access"@, d.vacuum_access);
    lemma_routine_citations_ok(d.routines@);
}

/// Law: a charging check with an inverted or non-positive RPM band is
/// always an issue, and it is the one reported when the bus tables, keys,
/// channel widths, requests and voltage thresholds are all in order.
pub proof fn lemma_charging_band_reported(d: EcuDefinition)
    requires
        d.charging matches Some(c) && !c.rpm_band_valid,
    ensures
        definition_issues(d).len() > 0,
        d.charging matches Some(c) && c.thresholds_ordered && bus_issues(d).len() == 0 && issues_upto(
            |i: int| channel_issues(d.channels@, i),
            d.channels@.len(),
        ).len() == 0 && issues_upto(|i: int| routine_key_issues(d.routines@, i), d.routines@.len()).len()
            == 0 && all_request_issues(d).len() == 0 ==> definition_issues(d)[0]
            == "[charging] needs 0 < check_rpm_min < check_rpm_max"@,
{
    let g2 = issues_upto(|i: int| channel_issues(d.channels@, i), d.channels@.len());
    let g3 = issues_upto(|i: int| routine_key_issues(d.routines@, i), d.routines@.len());
    let rest = guide_issues("connector_access"@, d.connector_access) + guide_issues(
        "vacuum_access"@,
        d.vacuum_access,
    ) + issues_upto(|i: int| routine_citation_issues(d.routines@, i), d.routines@.len());
    let ch = charging_issues(d);
    assert(definition_issues(d) == bus_issues(d) + g2 + g3 + all_request_issues(d) + ch + rest);
    let c = d.charging->Some_0;
    let first = one_if(!c.thresholds_ordered, "[charging] needs rest_min_v < charging_min_v < charging_max_v"@);
    let band = one_if(!c.rpm_band_valid, "[charging] needs 0 < check_rpm_min < check_rpm_max"@);
    assert(band.len() == 1);
    assert(ch.len() >= 1);
    if c.thresholds_ordered && bus_issues(d).len() == 0 && g2.len() == 0 && g3.len() == 0
        && all_request_issues(d).len() == 0 {
        assert(first.len() == 0);
        assert(ch[0] == "[charging] needs 0 < check_rpm_min < check_rpm_max"@);
        let pre = bus_issues(d) + g2 + g3 + all_request_issues(d);
        assert(pre.len() == 0);
        assert(definition_issues(d)[0] == ch[0]);
    }
}

/// A definition with no issues at all.
pub closed spec fn valid_definition(d: EcuDefinition) -> bool {
    definition_issues(d).len() == 0
}

pub proof fn lemma_valid_definition_means(d: EcuDefinition)
    ensures
        valid_definition(d) <==> definition_issues(d).len() == 0,
{
}

} // verus!
