//! Validation of rules before they are saved and before the sidecar starts.

use vstd::prelude::*;
use vstd::string::*;
use crate::gost_renderer::{render_gost_yaml, rendered_yaml, GostRenderError};
use crate::ip::{is_ip, parse_ip, parse_ip_str, same_address, IpAddr, IpValue};
use crate::order::{lemma_sorted_singleton, lemma_sorted_unique_by_set, sort_dedup, str_eq, strictly_sorted, views};
use crate::rule::{IdSet, Protocol, Rule, RuleSet};
use crate::text::{append_decimal, dec_str, is_blank, is_blank_str};

verus! {

/// The elements of an optional value, as a sequence of zero or one.
pub open spec fn opt_seq<A>(o: Option<A>) -> Seq<A> {
    match o {
        Some(a) => seq![a],
        None => Seq::empty(),
    }
}

/// The issue with an address field: blank, or not an IP address.
pub open spec fn ip_field_issue(rule_id: Seq<char>, field: Seq<char>, host: Seq<char>) -> Option<
    Seq<char>,
> {
    if is_blank(host) {
        Some("规则 "@ + rule_id + " 的"@ + field + "不能为空"@)
    } else if !is_ip(host) {
        Some("规则 "@ + rule_id + " 的"@ + field + "不是合法 IP 地址: "@ + host)
    } else {
        None
    }
}

/// The issues with the fields of one rule, in the order they are checked.
pub open spec fn field_issues(rule: Rule) -> Seq<Seq<char>> {
    let id = rule.id@;
    (if is_blank(rule.name@) {
        seq!["规则 "@ + id + " 的名称不能为空"@]
    } else {
        Seq::empty()
    }) + opt_seq(ip_field_issue(id, "监听地址"@, rule.listen_host@)) + opt_seq(
        ip_field_issue(id, "目标地址"@, rule.target_host@),
    ) + (if rule.listen_port == 0 {
        seq!["规则 "@ + id + " 的监听端口超出范围: 0"@]
    } else {
        Seq::empty()
    }) + (if rule.target_port == 0 {
        seq!["规则 "@ + id + " 的目标端口超出范围: 0"@]
    } else {
        Seq::empty()
    })
}

/// What a listener is identified by: protocol, address (normalized by parsing) and port.
pub struct ListenerKey {
    pub protocol: Protocol,
    pub address: IpValue,
    pub port: u16,
}

/// The listener of a rule whose listen host is an IP address.
pub open spec fn listener_key(rule: Rule) -> Option<ListenerKey> {
    match parse_ip(rule.listen_host@) {
        Some(a) => Some(ListenerKey { protocol: rule.protocol, address: a, port: rule.listen_port }),
        None => None,
    }
}

/// Both rules listen on the same protocol, address and port.
pub open spec fn same_listener(a: Rule, b: Rule) -> bool {
    listener_key(a) is Some && listener_key(a) == listener_key(b)
}

/// The first rule among `rules[i..j]` that listens where `rules[j]` does.
pub open spec fn earliest_listener(rules: Seq<Rule>, j: int, i: int) -> Option<int>
    decreases j - i,
{
    if i < 0 || i >= j {
        None
    } else if same_listener(rules[i], rules[j]) {
        Some(i)
    } else {
        earliest_listener(rules, j, i + 1)
    }
}

/// The message for two rules that listen in the same place.
pub open spec fn conflict_message(previous_id: Seq<char>, rule: Rule) -> Seq<char> {
    "监听冲突：规则 "@ + previous_id + " 与规则 "@ + rule.id@ + " 不能同时监听 "@
        + rule.protocol.spec_upper_name() + " "@ + rule.listen_host@ + ":"@ + dec_str(
        rule.listen_port as nat,
    )
}

/// The conflict of `rules[j]` with the first earlier rule that listens where it does.
pub open spec fn conflict_issue(rules: Seq<Rule>, j: int) -> Option<Seq<char>> {
    match earliest_listener(rules, j, 0) {
        Some(i) => Some(conflict_message(rules[i].id@, rules[j])),
        None => None,
    }
}

pub open spec fn conflict_issues_upto(rules: Seq<Rule>, n: int) -> Seq<Seq<char>>
    decreases n,
{
    if n <= 0 {
        Seq::empty()
    } else {
        conflict_issues_upto(rules, n - 1) + opt_seq(conflict_issue(rules, n - 1))
    }
}

/// The listen conflicts among the rules, in order.
pub open spec fn conflict_issues(rules: Seq<Rule>) -> Seq<Seq<char>> {
    conflict_issues_upto(rules, rules.len() as int)
}

/// Two rules listen in the same place: same protocol, the same address once
/// parsed (so `::1` and `0:0:0:0:0:0:0:1` agree), and the same port.
pub open spec fn listen_clash(a: Rule, b: Rule) -> bool {
    &&& parse_ip(a.listen_host@) is Some
    &&& parse_ip(a.listen_host@) == parse_ip(b.listen_host@)
    &&& a.protocol == b.protocol
    &&& a.listen_port == b.listen_port
}

proof fn lemma_same_listener_is_clash(a: Rule, b: Rule)
    ensures
        same_listener(a, b) <==> listen_clash(a, b),
{
    if same_listener(a, b) {
        let ka = listener_key(a)->Some_0;
        let kb = listener_key(b)->Some_0;
        assert(ka.port == a.listen_port && kb.port == b.listen_port);
        assert(ka.address == parse_ip(a.listen_host@)->Some_0);
    }
}

proof fn lemma_earliest_clash(rules: Seq<Rule>, j: int, i: int)
    requires
        0 <= j < rules.len(),
        0 <= i,
    ensures
        earliest_listener(rules, j, i) matches Some(k) ==> i <= k < j && listen_clash(rules[k], rules[j]),
        (exists|k: int| i <= k < j && listen_clash(#[trigger] rules[k], rules[j])) ==> earliest_listener(rules, j, i) is Some,
    decreases j - i,
{
    if i < j {
        lemma_same_listener_is_clash(rules[i], rules[j]);
        lemma_earliest_clash(rules, j, i + 1);
        if exists|k: int| i <= k < j && listen_clash(#[trigger] rules[k], rules[j]) {
            let k = choose|k: int| i <= k < j && listen_clash(#[trigger] rules[k], rules[j]);
            if k > i {
                assert(i + 1 <= k < j && listen_clash(rules[k], rules[j]));
            }
        }
    }
}

/// Law: a rule conflicts exactly when an earlier rule listens in the same
/// place — same protocol, same parsed address and same port — and the
/// conflict names such a rule; rules on different ports never conflict.
pub proof fn law_listen_conflicts_need_the_same_listener(rules: Seq<Rule>)
    ensures
        forall|j: int| 0 <= j < rules.len() ==> ((#[trigger] conflict_issue(rules, j) is Some) <==> exists|i: int|
            0 <= i < j && listen_clash(#[trigger] rules[i], rules[j])),
        forall|j: int| 0 <= j < rules.len() ==> (#[trigger] conflict_issue(rules, j) matches Some(m) ==> exists|i: int|
            0 <= i < j && listen_clash(#[trigger] rules[i], rules[j]) && m == conflict_message(rules[i].id@, rules[j])),
{
    assert forall|j: int| 0 <= j < rules.len() implies ((#[trigger] conflict_issue(rules, j) is Some) <==> exists|i: int|
        0 <= i < j && listen_clash(#[trigger] rules[i], rules[j])) by {
        lemma_earliest_clash(rules, j, 0);
    }
    assert forall|j: int| 0 <= j < rules.len() implies (#[trigger] conflict_issue(rules, j) matches Some(m) ==> exists|i: int|
        0 <= i < j && listen_clash(#[trigger] rules[i], rules[j]) && m == conflict_message(rules[i].id@, rules[j])) by {
        lemma_earliest_clash(rules, j, 0);
        if let Some(k) = earliest_listener(rules, j, 0) {
            assert(listen_clash(rules[k], rules[j]));
        }
    }
}

proof fn lemma_conflict_issues_upto_empty(rules: Seq<Rule>, n: int)
    requires
        0 <= n <= rules.len(),
        forall|j: int| 0 <= j < n ==> #[trigger] conflict_issue(rules, j) is None,
    ensures
        conflict_issues_upto(rules, n).len() == 0,
    decreases n,
{
    if n > 0 {
        lemma_conflict_issues_upto_empty(rules, n - 1);
        assert(conflict_issue(rules, n - 1) is None);
    }
}

/// Law: rules that all listen on different ports have no listen conflict,
/// whatever their protocols and addresses.
pub proof fn law_distinct_ports_never_conflict(rules: Seq<Rule>)
    requires
        forall|i: int, j: int| 0 <= i < j < rules.len() ==> #[trigger] rules[i].listen_port != #[trigger] rules[j].listen_port,
    ensures
        conflict_issues(rules).len() == 0,
{
    law_listen_conflicts_need_the_same_listener(rules);
    assert forall|j: int| 0 <= j < rules.len() implies #[trigger] conflict_issue(rules, j) is None by {
        if conflict_issue(rules, j) is Some {
            let i = choose|i: int| 0 <= i < j && listen_clash(#[trigger] rules[i], rules[j]);
            assert(rules[i].listen_port != rules[j].listen_port);
        }
    }
    lemma_conflict_issues_upto_empty(rules, rules.len() as int);
}

/// The issue with the ID of `rules[j]`: blank, or used by an earlier rule.
pub open spec fn id_issue(rules: Seq<Rule>, j: int) -> Option<Seq<char>> {
    if is_blank(rules[j].id@) {
        Some("规则 ID 不能为空"@)
    } else if exists|i: int| 0 <= i < j && #[trigger] rules[i].id@ == rules[j].id@ {
        Some("规则 ID 重复: "@ + rules[j].id@)
    } else {
        None
    }
}

pub open spec fn save_rule_issues_upto(rules: Seq<Rule>, n: int) -> Seq<Seq<char>>
    decreases n,
{
    if n <= 0 {
        Seq::empty()
    } else {
        save_rule_issues_upto(rules, n - 1) + field_issues(rules[n - 1]) + opt_seq(
            id_issue(rules, n - 1),
        )
    }
}

/// Every issue that saving the rules finds, before sorting.
pub open spec fn save_issues(rules: Seq<Rule>) -> Seq<Seq<char>> {
    save_rule_issues_upto(rules, rules.len() as int) + conflict_issues(rules)
}

/// The last rule with the given ID among `rules[..n]` (a map from ID to
/// rule keeps the last rule of each ID).
pub open spec fn last_with_id_upto(rules: Seq<Rule>, id: Seq<char>, n: int) -> Option<int>
    decreases n,
{
    if n <= 0 {
        None
    } else if rules[n - 1].id@ == id {
        Some(n - 1)
    } else {
        last_with_id_upto(rules, id, n - 1)
    }
}

pub open spec fn last_with_id(rules: Seq<Rule>, id: Seq<char>) -> Option<int> {
    last_with_id_upto(rules, id, rules.len() as int)
}

/// The rules that the active IDs name, in the order of the IDs.
pub open spec fn selected_rules(rules: Seq<Rule>, ids: Seq<Seq<char>>) -> Seq<Rule>
    decreases ids.len(),
{
    if ids.len() == 0 {
        Seq::empty()
    } else {
        selected_rules(rules, ids.drop_last()) + match last_with_id(rules, ids.last()) {
            Some(k) => seq![rules[k]],
            None => Seq::empty(),
        }
    }
}

/// The active IDs that name no rule, reported in order.
pub open spec fn missing_id_issues(rules: Seq<Rule>, ids: Seq<Seq<char>>) -> Seq<Seq<char>>
    decreases ids.len(),
{
    if ids.len() == 0 {
        Seq::empty()
    } else {
        missing_id_issues(rules, ids.drop_last()) + match last_with_id(rules, ids.last()) {
            Some(k) => Seq::empty(),
            None => seq!["启动失败：运行集合包含不存在的规则 ID: "@ + ids.last()],
        }
    }
}

/// The field issues of each rule, in order.
pub open spec fn all_field_issues(rules: Seq<Rule>) -> Seq<Seq<char>>
    decreases rules.len(),
{
    if rules.len() == 0 {
        Seq::empty()
    } else {
        all_field_issues(rules.drop_last()) + field_issues(rules.last())
    }
}

/// Every issue that the start check finds, before sorting.
pub open spec fn start_issues(
    rules: Seq<Rule>,
    ids: Seq<Seq<char>>,
    sidecar_path: Seq<char>,
    sidecar_is_file: bool,
) -> Seq<Seq<char>> {
    let sel = selected_rules(rules, ids);
    (if ids.len() == 0 {
        seq!["启动失败：运行集合为空，请至少选择一条规则"@]
    } else {
        Seq::empty()
    }) + (if !sidecar_is_file {
        seq!["启动失败：未找到 gost sidecar: "@ + sidecar_path]
    } else {
        Seq::empty()
    }) + missing_id_issues(rules, ids) + all_field_issues(sel) + conflict_issues(sel)
}

/// The message of a start refused because rendering failed.
pub open spec fn render_failure_message(detail: Seq<char>) -> Seq<char> {
    "启动失败：渲染 gost.yaml 失败: "@ + detail
}

/// Law: the issues of a validation depend only on which issues were found:
/// two lists with the same issues, in any order and with any repetition, give
/// the same errors. In particular building the errors again from their own
/// issues gives them back unchanged.
pub proof fn law_validation_errors_depend_only_on_the_issues(
    found1: Seq<Seq<char>>,
    found2: Seq<Seq<char>>,
    r1: Seq<Seq<char>>,
    r2: Seq<Seq<char>>,
)
    requires
        strictly_sorted(r1),
        r1.to_set() == found1.to_set(),
        strictly_sorted(r2),
        r2.to_set() == found2.to_set(),
        found1.to_set() == found2.to_set(),
    ensures
        r1 == r2,
{
    lemma_sorted_unique_by_set(r1, r2);
}

/// The issues that a validation found: distinct, in increasing order.
#[derive(Debug, PartialEq, Eq)]
pub struct ValidationErrors {
    issues: Vec<String>,
}

impl View for ValidationErrors {
    type V = Seq<Seq<char>>;

    closed spec fn view(&self) -> Seq<Seq<char>> {
        views(self.issues@)
    }
}

/// The parts joined with a separator.
pub open spec fn joined(parts: Seq<Seq<char>>, sep: Seq<char>) -> Seq<char>
    decreases parts.len(),
{
    if parts.len() == 0 {
        Seq::empty()
    } else if parts.len() == 1 {
        parts[0]
    } else {
        joined(parts.drop_last(), sep) + sep + parts.last()
    }
}

impl ValidationErrors {
    #[verifier::type_invariant]
    spec fn sorted(self) -> bool {
        strictly_sorted(views(self.issues@))
    }

    /// Sorts the issues and drops repeated ones.
    pub fn new(issues: Vec<String>) -> (r: ValidationErrors)
        ensures
            strictly_sorted(r@),
            r@.to_set() == views(issues@).to_set(),
    {
        ValidationErrors { issues: sort_dedup(issues) }
    }

    pub fn issues(&self) -> (r: &[String])
        ensures
            views(r@) == self@,
            strictly_sorted(views(r@)),
    {
        proof {
            use_type_invariant(self);
        }
        self.issues.as_slice()
    }

    pub fn into_issues(self) -> (r: Vec<String>)
        ensures
            views(r@) == self@,
            strictly_sorted(views(r@)),
    {
        proof {
            use_type_invariant(&self);
        }
        self.issues
    }

    /// The text that the errors display: the issues joined by `；`.
    pub fn message(&self) -> (r: String)
        ensures
            r@ == joined(self@, "；"@),
    {
        let mut r = String::new();
        let mut i: usize = 0;
        while i < self.issues.len()
            invariant
                i <= self.issues@.len(),
                r@ == joined(views(self.issues@).subrange(0, i as int), "；"@),
            decreases self.issues@.len() - i,
        {
            let ghost pre = views(self.issues@).subrange(0, i as int);
            let ghost next = views(self.issues@).subrange(0, i + 1);
            assert(next.drop_last() =~= pre);
            if i > 0 {
                r.append("；");
            }
            r.append(self.issues[i].as_str());
            i = i + 1;
        }
        assert(views(self.issues@).subrange(0, self.issues@.len() as int) =~= self@);
        r
    }
}

/// What a successful start check hands on: the active rules and the rendered configuration.
#[derive(Debug, Clone, PartialEq, Eq)]
pub struct StartValidationOutput {
    pub active_rules: Vec<Rule>,
    pub rendered_config: String,
}

// ---------------------------------------------------------------------------
fn push_issue(issues: &mut Vec<String>, m: String)
    ensures
        views(final(issues)@) == views(old(issues)@).push(m@),
{
    issues.push(m);
    assert(views(issues@) =~= views(old(issues)@).push(m@));
}

fn validate_ip_field(rule_id: &str, field_name: &str, host: &str, issues: &mut Vec<String>)
    ensures
        views(final(issues)@) == views(old(issues)@) + opt_seq(
            ip_field_issue(rule_id@, field_name@, host@),
        ),
{
    if is_blank_str(host) {
        let mut m = String::from_str("规则 ");
        m.append(rule_id);
        m.append(" 的");
        m.append(field_name);
        m.append("不能为空");
        push_issue(issues, m);
        return;
    }
    match parse_ip_str(host) {
        None => {
            let mut m = String::from_str("规则 ");
            m.append(rule_id);
            m.append(" 的");
            m.append(field_name);
            m.append("不是合法 IP 地址: ");
            m.append(host);
            push_issue(issues, m);
        },
        Some(_) => {
            assert(views(issues@) =~= views(issues@) + Seq::<Seq<char>>::empty());
        },
    }
}

fn validate_rule_fields(rule: &Rule, issues: &mut Vec<String>)
    ensures
        views(final(issues)@) == views(old(issues)@) + field_issues(*rule),
{
    let ghost start = views(issues@);
    let id = rule.id.as_str();
    if is_blank_str(rule.name.as_str()) {
        let mut m = String::from_str("规则 ");
        m.append(id);
        m.append(" 的名称不能为空");
        push_issue(issues, m);
    }
    let ghost a = views(issues@);
    validate_ip_field(id, "监听地址", rule.listen_host.as_str(), issues);
    let ghost b = views(issues@);
    validate_ip_field(id, "目标地址", rule.target_host.as_str(), issues);
    let ghost c = views(issues@);
    if rule.listen_port == 0 {
        let mut m = String::from_str("规则 ");
        m.append(id);
        m.append(" 的监听端口超出范围: 0");
        push_issue(issues, m);
    }
    let ghost d = views(issues@);
    if rule.target_port == 0 {
        let mut m = String::from_str("规则 ");
        m.append(id);
        m.append(" 的目标端口超出范围: 0");
        push_issue(issues, m);
    }
    assert(views(issues@) =~= start + field_issues(*rule));
}

/// One listener already seen: its key and the ID of the first rule with it.
struct SeenListener {
    protocol: Protocol,
    address: IpAddr,
    port: u16,
    rule_id: String,
}

impl SeenListener {
    spec fn key(&self) -> ListenerKey {
        ListenerKey { protocol: self.protocol, address: self.address@, port: self.port }
    }
}

spec fn seen_keys(seen: Seq<SeenListener>) -> Seq<ListenerKey> {
    seen.map_values(|s: SeenListener| s.key())
}

spec fn seen_ids(seen: Seq<SeenListener>) -> Seq<Seq<char>> {
    seen.map_values(|s: SeenListener| s.rule_id@)
}

/// `keys`/`ids` hold, for each listener among `r[..j]`, its key and the ID
/// of its first rule, which `idxs` locates.
spec fn seen_ok(
    r: Seq<Rule>,
    j: int,
    keys: Seq<ListenerKey>,
    ids: Seq<Seq<char>>,
    idxs: Seq<int>,
) -> bool {
    &&& keys.len() == idxs.len()
    &&& ids.len() == idxs.len()
    &&& forall|k: int| 0 <= k < idxs.len() ==> 0 <= #[trigger] idxs[k] < j
    &&& forall|k: int|
        0 <= k < idxs.len() ==> listener_key(r[#[trigger] idxs[k]]) == Some(keys[k])
    &&& forall|k: int| 0 <= k < idxs.len() ==> ids[k] == r[#[trigger] idxs[k]].id@
    &&& forall|k: int| 0 <= k < idxs.len() ==> earliest_listener(r, #[trigger] idxs[k], 0) is None
    &&& forall|m: int|
        0 <= m < j && listener_key(#[trigger] r[m]) is Some ==> exists|k: int|
            0 <= k < idxs.len() && keys[k] == listener_key(r[m])->Some_0
}

proof fn lemma_earliest_listener(rules: Seq<Rule>, j: int, i: int)
    requires
        0 <= i,
    ensures
        earliest_listener(rules, j, i) matches Some(k) ==> i <= k < j && same_listener(
            rules[k],
            rules[j],
        ) && forall|m: int| i <= m < k ==> !same_listener(#[trigger] rules[m], rules[j]),
        earliest_listener(rules, j, i) is None ==> forall|m: int|
            i <= m < j ==> !same_listener(#[trigger] rules[m], rules[j]),
    decreases j - i,
{
    if i < j && !same_listener(rules[i], rules[j]) {
        lemma_earliest_listener(rules, j, i + 1);
    }
}

proof fn lemma_seen_found(
    r: Seq<Rule>,
    j: int,
    keys: Seq<ListenerKey>,
    ids: Seq<Seq<char>>,
    idxs: Seq<int>,
    k: int,
)
    requires
        0 <= j < r.len(),
        seen_ok(r, j, keys, ids, idxs),
        0 <= k < keys.len(),
        listener_key(r[j]) == Some(keys[k]),
    ensures
        conflict_issue(r, j) == Some(conflict_message(ids[k], r[j])),
{
    let i0 = idxs[k];
    assert(same_listener(r[i0], r[j]));
    lemma_earliest_listener(r, j, 0);
    lemma_earliest_listener(r, i0, 0);
    let i1 = earliest_listener(r, j, 0)->Some_0;
    if i1 < i0 {
        assert(same_listener(r[i1], r[i0]));
    }
    assert(i1 == i0);
}

proof fn lemma_seen_new(
    r: Seq<Rule>,
    j: int,
    keys: Seq<ListenerKey>,
    ids: Seq<Seq<char>>,
    idxs: Seq<int>,
)
    requires
        0 <= j < r.len(),
        seen_ok(r, j, keys, ids, idxs),
        listener_key(r[j]) is Some,
        forall|k: int| 0 <= k < keys.len() ==> keys[k] != listener_key(r[j])->Some_0,
    ensures
        conflict_issue(r, j) is None,
        seen_ok(
            r,
            j + 1,
            keys.push(listener_key(r[j])->Some_0),
            ids.push(r[j].id@),
            idxs.push(j),
        ),
{
    lemma_earliest_listener(r, j, 0);
    if earliest_listener(r, j, 0) is Some {
        let i1 = earliest_listener(r, j, 0)->Some_0;
        let q = choose|q: int| 0 <= q < idxs.len() && keys[q] == listener_key(r[i1])->Some_0;
        assert(keys[q] == listener_key(r[j])->Some_0);
    }
    let keys2 = keys.push(listener_key(r[j])->Some_0);
    let idxs2 = idxs.push(j);
    assert forall|m: int|
        0 <= m < j + 1 && listener_key(#[trigger] r[m]) is Some implies exists|k: int|
            0 <= k < idxs2.len() && keys2[k] == listener_key(r[m])->Some_0 by {
        if m == j {
            assert(keys2[keys.len() as int] == listener_key(r[m])->Some_0);
        } else {
            let q = choose|q: int| 0 <= q < idxs.len() && keys[q] == listener_key(r[m])->Some_0;
            assert(keys2[q] == listener_key(r[m])->Some_0);
        }
    }
    assert forall|k: int| 0 <= k < idxs2.len() implies earliest_listener(r, #[trigger] idxs2[k], 0) is None by {
        if k < idxs.len() {
            assert(idxs2[k] == idxs[k]);
        }
    }
}

proof fn lemma_seen_skip(
    r: Seq<Rule>,
    j: int,
    keys: Seq<ListenerKey>,
    ids: Seq<Seq<char>>,
    idxs: Seq<int>,
)
    requires
        0 <= j < r.len(),
        seen_ok(r, j, keys, ids, idxs),
        listener_key(r[j]) is None,
    ensures
        conflict_issue(r, j) is None,
        seen_ok(r, j + 1, keys, ids, idxs),
{
    lemma_earliest_listener(r, j, 0);
}

/// The index of the seen listener with the given key.
fn find_seen(seen: &Vec<SeenListener>, protocol: Protocol, address: &IpAddr, port: u16) -> (r:
    Option<usize>)
    ensures
        match r {
            Some(k) => k < seen@.len() && seen_keys(seen@)[k as int] == (ListenerKey {
                protocol,
                address: address@,
                port,
            }),
            None => forall|k: int|
                0 <= k < seen@.len() ==> seen_keys(seen@)[k] != (ListenerKey {
                    protocol,
                    address: address@,
                    port,
                }),
        },
{
    let mut k: usize = 0;
    while k < seen.len()
        invariant
            k <= seen@.len(),
            forall|q: int|
                0 <= q < k ==> seen_keys(seen@)[q] != (ListenerKey {
                    protocol,
                    address: address@,
                    port,
                }),
        decreases seen@.len() - k,
    {
        if seen[k].protocol == protocol && seen[k].port == port && same_address(
            &seen[k].address,
            address,
        ) {
            return Some(k);
        }
        k = k + 1;
    }
    None
}

fn conflict_text(previous_id: &str, rule: &Rule) -> (m: String)
    ensures
        m@ == conflict_message(previous_id@, *rule),
{
    let mut m = String::from_str("监听冲突：规则 ");
    m.append(previous_id);
    m.append(" 与规则 ");
    m.append(rule.id.as_str());
    m.append(" 不能同时监听 ");
    m.append(rule.protocol.upper_name());
    m.append(" ");
    m.append(rule.listen_host.as_str());
    m.append(":");
    append_decimal(&mut m, rule.listen_port as u64);
    m
}

/// Appends a message for each rule that listens where an earlier rule does.
fn append_listen_conflicts(rules: &[Rule], issues: &mut Vec<String>)
    ensures
        views(final(issues)@) == views(old(issues)@) + conflict_issues(rules@),
{
    let ghost r = rules@;
    let mut seen: Vec<SeenListener> = Vec::new();
    let ghost mut idxs: Seq<int> = Seq::empty();
    let ghost start = views(issues@);
    let mut j: usize = 0;
    while j < rules.len()
        invariant
            r == rules@,
            j <= r.len(),
            views(issues@) == start + conflict_issues_upto(r, j as int),
            seen_ok(r, j as int, seen_keys(seen@), seen_ids(seen@), idxs),
        decreases r.len() - j,
    {
        let rule = &rules[j];
        let ghost jj = j as int;
        match parse_ip_str(rule.listen_host.as_str()) {
            None => {
                proof {
                    lemma_seen_skip(r, jj, seen_keys(seen@), seen_ids(seen@), idxs);
                    assert(views(issues@) =~= start + conflict_issues_upto(r, jj + 1));
                }
            },
            Some(addr) => {
                match find_seen(&seen, rule.protocol, &addr, rule.listen_port) {
                    Some(k) => {
                        proof {
                            lemma_seen_found(r, jj, seen_keys(seen@), seen_ids(seen@), idxs, k as int);
                        }
                        let m = conflict_text(seen[k].rule_id.as_str(), rule);
                        push_issue(issues, m);
                        proof {
                            assert(views(issues@) =~= start + conflict_issues_upto(r, jj + 1));
                        }
                    },
                    None => {
                        proof {
                            lemma_seen_new(r, jj, seen_keys(seen@), seen_ids(seen@), idxs);
                            assert(views(issues@) =~= start + conflict_issues_upto(r, jj + 1));
                        }
                        let ghost old_seen = seen@;
                        seen.push(
                            SeenListener {
                                protocol: rule.protocol,
                                address: addr,
                                port: rule.listen_port,
                                rule_id: rule.id.clone(),
                            },
                        );
                        proof {
                            assert(seen_keys(seen@) =~= seen_keys(old_seen).push(listener_key(r[jj])->Some_0));
                            assert(seen_ids(seen@) =~= seen_ids(old_seen).push(r[jj].id@));
                            idxs = idxs.push(jj);
                        }
                    },
                }
            },
        }
        j = j + 1;
    }
}

/// Checks the rules before they are saved: the fields of each rule, that
/// IDs are present and distinct, and that no two rules listen in the same place.
pub fn validate_before_save(rule_set: &RuleSet) -> (r: Result<(), ValidationErrors>)
    ensures
        match r {
            Ok(()) => save_issues(rule_set.rules@).len() == 0,
            Err(e) => save_issues(rule_set.rules@).len() > 0 && strictly_sorted(e@) && e@.to_set()
                == save_issues(rule_set.rules@).to_set(),
        },
{
    let rules = &rule_set.rules;
    let ghost r = rules@;
    let mut issues: Vec<String> = Vec::new();
    let mut seen_ids = IdSet::new();
    let mut j: usize = 0;
    while j < rules.len()
        invariant
            r == rules@,
            j <= r.len(),
            views(issues@) == save_rule_issues_upto(r, j as int),
            forall|id: Seq<char>|
                #![trigger seen_ids@.contains(id)]
                seen_ids@.to_set().contains(id) <==> exists|i: int|
                    0 <= i < j && !is_blank(r[i].id@) && #[trigger] r[i].id@ == id,
            forall|id: Seq<char>| seen_ids@.contains(id) <==> seen_ids@.to_set().contains(id),
        decreases r.len() - j,
    {
        let rule = &rules[j];
        let ghost jj = j as int;
        validate_rule_fields(rule, &mut issues);
        if is_blank_str(rule.id.as_str()) {
            push_issue(&mut issues, String::from_str("规则 ID 不能为空"));
        } else if seen_ids.contains(rule.id.as_str()) {
            proof {
                assert(seen_ids@.to_set().contains(r[jj].id@));
                let i = choose|i: int| 0 <= i < jj && !is_blank(r[i].id@) && r[i].id@ == r[jj].id@;
                assert(r[i].id@ == r[jj].id@);
            }
            let mut m = String::from_str("规则 ID 重复: ");
            m.append(rule.id.as_str());
            push_issue(&mut issues, m);
        } else {
            proof {
                assert(!seen_ids@.to_set().contains(r[jj].id@));
                assert forall|i: int| 0 <= i < jj implies #[trigger] r[i].id@ != r[jj].id@ by {
                    if r[i].id@ == r[jj].id@ {
                        assert(!is_blank(r[i].id@));
                    }
                }
            }
            seen_ids.insert(rule.id.clone());
        }
        proof {
            assert(views(issues@) =~= save_rule_issues_upto(r, jj + 1));
            assert forall|id: Seq<char>| #![trigger seen_ids@.contains(id)]
                seen_ids@.to_set().contains(id) <==> exists|i: int|
                    0 <= i < jj + 1 && !is_blank(r[i].id@) && #[trigger] r[i].id@ == id by {
                if exists|i: int| 0 <= i < jj + 1 && !is_blank(r[i].id@) && #[trigger] r[i].id@ == id {
                    let i = choose|i: int| 0 <= i < jj + 1 && !is_blank(r[i].id@) && #[trigger] r[i].id@ == id;
                    if i < jj {
                        assert(0 <= i < jj && !is_blank(r[i].id@) && r[i].id@ == id);
                    }
                }
            }
            assert forall|id: Seq<char>| seen_ids@.contains(id) <==> seen_ids@.to_set().contains(id) by {
            }
        }
        j = j + 1;
    }
    append_listen_conflicts(rules.as_slice(), &mut issues);
    if issues.len() == 0 {
        Ok(())
    } else {
        Err(ValidationErrors::new(issues))
    }
}

/// The index of the last rule with the given ID.
fn find_last_with_id(rules: &Vec<Rule>, id: &str) -> (r: Option<usize>)
    ensures
        match r {
            Some(k) => last_with_id(rules@, id@) == Some(k as int) && k < rules@.len(),
            None => last_with_id(rules@, id@) is None,
        },
{
    let mut last: Option<usize> = None;
    let mut i: usize = 0;
    while i < rules.len()
        invariant
            i <= rules@.len(),
            match last {
                Some(k) => last_with_id_upto(rules@, id@, i as int) == Some(k as int) && k < i,
                None => last_with_id_upto(rules@, id@, i as int) is None,
            },
        decreases rules@.len() - i,
    {
        if str_eq(rules[i].id.as_str(), id) {
            last = Some(i);
        }
        i = i + 1;
    }
    last
}

/// The active rules, in the order of their IDs, and the issues that the
/// start check finds before rendering, in the order they are found.
pub fn check_start_rules(
    rule_set: &RuleSet,
    active_rule_ids: &IdSet,
    sidecar_path: &str,
    sidecar_is_file: bool,
) -> (r: (Vec<Rule>, Vec<String>))
    ensures
        r.0@ == selected_rules(rule_set.rules@, active_rule_ids@),
        views(r.1@) == start_issues(
            rule_set.rules@,
            active_rule_ids@,
            sidecar_path@,
            sidecar_is_file,
        ),
{
    let rules = &rule_set.rules;
    let ids = active_rule_ids;
    let mut issues: Vec<String> = Vec::new();
    if ids.is_empty() {
        push_issue(&mut issues, String::from_str("启动失败：运行集合为空，请至少选择一条规则"));
    }
    if !sidecar_is_file {
        let mut m = String::from_str("启动失败：未找到 gost sidecar: ");
        m.append(sidecar_path);
        push_issue(&mut issues, m);
    }
    let ghost head = views(issues@);
    let mut active_rules: Vec<Rule> = Vec::new();
    let mut i: usize = 0;
    while i < ids.len()
        invariant
            i <= ids@.len(),
            active_rules@ == selected_rules(rules@, ids@.subrange(0, i as int)),
            views(issues@) == head + missing_id_issues(rules@, ids@.subrange(0, i as int)),
        decreases ids@.len() - i,
    {
        let ghost pre = ids@.subrange(0, i as int);
        let ghost next = ids@.subrange(0, i + 1);
        assert(next.drop_last() =~= pre);
        assert(next.last() == ids@[i as int]);
        let id = ids.get(i);
        match find_last_with_id(rules, id.as_str()) {
            Some(k) => {
                active_rules.push(rules[k].clone());
                assert(views(issues@) =~= head + missing_id_issues(rules@, next));
            },
            None => {
                let mut m = String::from_str("启动失败：运行集合包含不存在的规则 ID: ");
                m.append(id.as_str());
                push_issue(&mut issues, m);
                assert(active_rules@ =~= selected_rules(rules@, next));
                assert(views(issues@) =~= head + missing_id_issues(rules@, next));
            },
        }
        i = i + 1;
    }
    assert(ids@.subrange(0, ids@.len() as int) =~= ids@);
    let ghost mid = views(issues@);
    let mut j: usize = 0;
    while j < active_rules.len()
        invariant
            j <= active_rules@.len(),
            views(issues@) == mid + all_field_issues(active_rules@.subrange(0, j as int)),
        decreases active_rules@.len() - j,
    {
        let ghost pre = active_rules@.subrange(0, j as int);
        let ghost next = active_rules@.subrange(0, j + 1);
        assert(next.drop_last() =~= pre);
        validate_rule_fields(&active_rules[j], &mut issues);
        assert(views(issues@) =~= mid + all_field_issues(next));
        j = j + 1;
    }
    assert(active_rules@.subrange(0, active_rules@.len() as int) =~= active_rules@);
    append_listen_conflicts(active_rules.as_slice(), &mut issues);
    assert(views(issues@) =~= start_issues(rules@, ids@, sidecar_path@, sidecar_is_file));
    (active_rules, issues)
}

/// What follows rendering: the active rules with the configuration, or the
/// rendering failure as the one issue.
pub fn finish_start_validation(
    active_rules: Vec<Rule>,
    rendered: Result<String, GostRenderError>,
) -> (r: Result<StartValidationOutput, ValidationErrors>)
    ensures
        match rendered {
            Ok(cfg) => r matches Ok(out) && out.active_rules@ == active_rules@
                && out.rendered_config@ == cfg@,
            Err(e) => r matches Err(v) && v@ == seq![render_failure_message(e.spec_message())],
        },
{
    match rendered {
        Ok(cfg) => Ok(StartValidationOutput { active_rules, rendered_config: cfg }),
        Err(e) => {
            let mut m = String::from_str("启动失败：渲染 gost.yaml 失败: ");
            let detail = e.message();
            m.append(detail.as_str());
            let mut one: Vec<String> = Vec::new();
            one.push(m);
            let v = ValidationErrors::new(one);
            proof {
                assert(views(one@) =~= seq![render_failure_message(e.spec_message())]);
                let x = render_failure_message(e.spec_message());
                assert forall|y: Seq<char>| views(one@).to_set().contains(y) <==> set![x].contains(y) by {
                    if y == x {
                        assert(views(one@)[0] == y);
                    }
                }
                assert(views(one@).to_set() =~= set![x]);
                lemma_sorted_singleton(v@, render_failure_message(e.spec_message()));
            }
            Err(v)
        },
    }
}

/// Checks a start: the active set is not empty, the sidecar exists, every
/// active ID names a rule, those rules are well formed and do not listen in
/// the same place; then renders them with `render`.
pub fn validate_before_start_with_renderer<F>(
    rule_set: &RuleSet,
    active_rule_ids: &IdSet,
    sidecar_path: &str,
    sidecar_is_file: bool,
    render: F,
) -> (r: Result<StartValidationOutput, ValidationErrors>) where
    F: FnOnce(&[Rule]) -> Result<String, GostRenderError>,

    requires
        forall|rs: &[Rule]| #[trigger] render.requires((rs,)),
    ensures
        ({
            let issues = start_issues(
                rule_set.rules@,
                active_rule_ids@,
                sidecar_path@,
                sidecar_is_file,
            );
            let sel = selected_rules(rule_set.rules@, active_rule_ids@);
            &&& issues.len() > 0 ==> (r matches Err(e) && strictly_sorted(e@) && e@.to_set()
                == issues.to_set())
            &&& issues.len() == 0 ==> exists|rs: &[Rule], res: Result<String, GostRenderError>|
                rs@ == sel && #[trigger] render.ensures((rs,), res) && match res {
                    Ok(cfg) => r matches Ok(out) && out.active_rules@ == sel
                        && out.rendered_config@ == cfg@,
                    Err(err) => r matches Err(e) && e@ == seq![
                        render_failure_message(err.spec_message()),
                    ],
                }
        }),
{
    let (active_rules, issues) = check_start_rules(
        rule_set,
        active_rule_ids,
        sidecar_path,
        sidecar_is_file,
    );
    if issues.len() > 0 {
        return Err(ValidationErrors::new(issues));
    }
    let slice = active_rules.as_slice();
    let rendered = render(slice);
    let ghost rs = slice;
    let ghost res = rendered;
    let r = finish_start_validation(active_rules, rendered);
    assert(render.ensures((rs,), res));
    r
}

/// `validate_before_start_with_renderer` with `render_gost_yaml`.
pub fn validate_before_start(
    rule_set: &RuleSet,
    active_rule_ids: &IdSet,
    sidecar_path: &str,
    sidecar_is_file: bool,
) -> (r: Result<StartValidationOutput, ValidationErrors>)
    ensures
        ({
            let issues = start_issues(
                rule_set.rules@,
                active_rule_ids@,
                sidecar_path@,
                sidecar_is_file,
            );
            let sel = selected_rules(rule_set.rules@, active_rule_ids@);
            &&& issues.len() > 0 ==> (r matches Err(e) && strictly_sorted(e@) && e@.to_set()
                == issues.to_set())
            &&& issues.len() == 0 ==> match rendered_yaml(sel) {
                Ok(y) => r matches Ok(out) && out.active_rules@ == sel && out.rendered_config@ == y,
                Err(m) => r matches Err(e) && e@ == seq![render_failure_message(m)],
            }
        }),
{
    let (active_rules, issues) = check_start_rules(
        rule_set,
        active_rule_ids,
        sidecar_path,
        sidecar_is_file,
    );
    if issues.len() > 0 {
        return Err(ValidationErrors::new(issues));
    }
    let rendered = render_gost_yaml(active_rules.as_slice());
    finish_start_validation(active_rules, rendered)
}

} // verus!
