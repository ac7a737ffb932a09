//! Rendering of the active rules into the `gost.yaml` that the sidecar runs.

use vstd::prelude::*;
use vstd::string::*;
use crate::rule::{format_socket_addr, socket_addr, Rule};
use crate::text::{chars_of, is_blank, is_blank_str, push_char};

verus! {

/// The text with every `'` doubled, as YAML single-quoted scalars need.
pub open spec fn double_single_quotes(s: Seq<char>) -> Seq<char>
    decreases s.len(),
{
    if s.len() == 0 {
        Seq::empty()
    } else if s.last() == '\'' {
        double_single_quotes(s.drop_last()) + "''"@
    } else {
        double_single_quotes(s.drop_last()).push(s.last())
    }
}

/// A YAML single-quoted scalar.
pub open spec fn yaml_quoted(s: Seq<char>) -> Seq<char> {
    "'"@ + double_single_quotes(s) + "'"@
}

/// The service that forwards one rule.
pub open spec fn service_block(rule: Rule) -> Seq<char> {
    let protocol = rule.protocol.spec_name();
    "  - name: "@ + yaml_quoted("rule-"@ + rule.id@) + "\n    addr: "@ + yaml_quoted(
        socket_addr(rule.listen_host@, rule.listen_port as nat),
    ) + "\n    handler:\n      type: "@ + protocol + "\n    listener:\n      type: "@ + protocol
        + "\n    forwarder:\n      nodes:\n        - name: 'target-0'\n          addr: "@
        + yaml_quoted(socket_addr(rule.target_host@, rule.target_port as nat)) + "\n"@
}

/// Why a rule cannot be rendered: a blank ID, listen host or target host.
pub open spec fn render_issue(rule: Rule) -> Option<Seq<char>> {
    if is_blank(rule.id@) {
        Some("规则 ID 不能为空，无法渲染 gost.yaml"@)
    } else if is_blank(rule.listen_host@) {
        Some("规则 "@ + rule.id@ + " 的监听地址不能为空，无法渲染 gost.yaml"@)
    } else if is_blank(rule.target_host@) {
        Some("规则 "@ + rule.id@ + " 的目标地址不能为空，无法渲染 gost.yaml"@)
    } else {
        None
    }
}

/// The services of the rules, in order.
pub open spec fn service_blocks(rules: Seq<Rule>) -> Seq<char>
    decreases rules.len(),
{
    if rules.len() == 0 {
        Seq::empty()
    } else {
        service_blocks(rules.drop_last()) + service_block(rules.last())
    }
}

/// The issue of the first rule that cannot be rendered.
pub open spec fn first_render_issue(rules: Seq<Rule>) -> Option<Seq<char>>
    decreases rules.len(),
{
    if rules.len() == 0 {
        None
    } else {
        match first_render_issue(rules.drop_last()) {
            Some(e) => Some(e),
            None => render_issue(rules.last()),
        }
    }
}

/// The configuration text for the rules, or the issue of the first rule that cannot be rendered.
pub open spec fn rendered_yaml(rules: Seq<Rule>) -> Result<Seq<char>, Seq<char>> {
    match first_render_issue(rules) {
        Some(e) => Err(e),
        None => Ok("services:\n"@ + service_blocks(rules)),
    }
}

proof fn lemma_service_blocks_concat(a: Seq<Rule>, b: Seq<Rule>)
    ensures
        service_blocks(a + b) == service_blocks(a) + service_blocks(b),
    decreases b.len(),
{
    if b.len() == 0 {
        assert(a + b =~= a);
        assert(service_blocks(a) + service_blocks(b) =~= service_blocks(a));
    } else {
        lemma_service_blocks_concat(a, b.drop_last());
        assert((a + b).drop_last() =~= a + b.drop_last());
        assert((a + b).last() == b.last());
        assert(service_blocks(a) + service_blocks(b) =~= service_blocks(a) + service_blocks(b.drop_last())
            + service_block(b.last()));
    }
}

/// Law: the services of a list of rules are those of each part in turn, and
/// each rule gets its own service at its place: whatever precedes it, then its
/// block, then whatever follows. So no rule is left out, repeated or moved.
pub proof fn law_every_rule_gets_its_service(rules: Seq<Rule>, more: Seq<Rule>)
    ensures
        service_blocks(rules + more) == service_blocks(rules) + service_blocks(more),
        forall|i: int| 0 <= i < rules.len() ==> service_blocks(rules) == service_blocks(rules.take(i))
            + service_block(#[trigger] rules[i]) + service_blocks(rules.skip(i + 1)),
        service_blocks(rules).len() >= rules.len(),
{
    lemma_service_blocks_concat(rules, more);
    assert forall|i: int| 0 <= i < rules.len() implies service_blocks(rules) == service_blocks(rules.take(i))
        + service_block(#[trigger] rules[i]) + service_blocks(rules.skip(i + 1)) by {
        let x = seq![rules[i]];
        assert(rules =~= rules.take(i) + x + rules.skip(i + 1));
        lemma_service_blocks_concat(rules.take(i) + x, rules.skip(i + 1));
        lemma_service_blocks_concat(rules.take(i), x);
        assert(x.drop_last() =~= Seq::<Rule>::empty());
        assert(x.last() == rules[i]);
        assert(service_blocks(Seq::<Rule>::empty()) =~= Seq::<char>::empty());
        assert(service_blocks(x) == service_blocks(x.drop_last()) + service_block(x.last()));
        assert(service_blocks(x) =~= service_block(rules[i]));
    }
    lemma_blocks_long(rules);
}

proof fn lemma_blocks_long(rules: Seq<Rule>)
    ensures
        service_blocks(rules).len() >= rules.len(),
    decreases rules.len(),
{
    if rules.len() > 0 {
        lemma_blocks_long(rules.drop_last());
    }
}

/// Law: a rendering that succeeds holds, after the `services:` line, the
/// service of every rule, in the order of the rules.
pub proof fn law_rendering_keeps_every_rule(rules: Seq<Rule>)
    ensures
        rendered_yaml(rules) matches Ok(y) ==> forall|i: int| 0 <= i < rules.len() ==> y == "services:\n"@
            + service_blocks(rules.take(i)) + service_block(#[trigger] rules[i]) + service_blocks(rules.skip(i + 1)),
{
    law_every_rule_gets_its_service(rules, Seq::empty());
    if rendered_yaml(rules) is Ok {
        let y = rendered_yaml(rules)->Ok_0;
        assert(y == "services:\n"@ + service_blocks(rules));
        assert forall|i: int| 0 <= i < rules.len() implies y == "services:\n"@ + service_blocks(rules.take(i))
            + service_block(#[trigger] rules[i]) + service_blocks(rules.skip(i + 1)) by {
            let a = service_blocks(rules.take(i));
            let b = service_block(rules[i]);
            let c = service_blocks(rules.skip(i + 1));
            assert(service_blocks(rules) == a + b + c);
            assert("services:\n"@ + (a + b + c) =~= "services:\n"@ + a + b + c);
        }
    }
}

/// Why `gost.yaml` could not be rendered.
#[derive(Debug, Clone, PartialEq, Eq)]
pub enum GostRenderError {
    InvalidRule(String),
}

impl GostRenderError {
    pub open spec fn spec_message(&self) -> Seq<char> {
        match self {
            GostRenderError::InvalidRule(m) => m@,
        }
    }

    /// The text that the error displays.
    pub fn message(&self) -> (r: String)
        ensures
            r@ == self.spec_message(),
    {
        match self {
            GostRenderError::InvalidRule(m) => m.clone(),
        }
    }
}

/// Quotes a value as a YAML single-quoted scalar.
pub fn yaml_quote(value: &str) -> (r: String)
    ensures
        r@ == yaml_quoted(value@),
{
    let cs = chars_of(value);
    let mut r = String::from_str("'");
    let mut i: usize = 0;
    while i < cs.len()
        invariant
            cs@ == value@,
            i <= cs@.len(),
            r@ == "'"@ + double_single_quotes(value@.subrange(0, i as int)),
        decreases cs@.len() - i,
    {
        let c = cs[i];
        let ghost pre = value@.subrange(0, i as int);
        assert(value@.subrange(0, i + 1).drop_last() =~= pre);
        if c == '\'' {
            r.append("''");
            assert(r@ =~= "'"@ + double_single_quotes(value@.subrange(0, i + 1)));
        } else {
            push_char(&mut r, c);
            assert(r@ =~= "'"@ + double_single_quotes(value@.subrange(0, i + 1)));
        }
        i = i + 1;
    }
    assert(value@.subrange(0, value@.len() as int) =~= value@);
    r.append("'");
    r
}

fn render_issue_of(rule: &Rule) -> (r: Option<String>)
    ensures
        match r {
            Some(m) => render_issue(*rule) == Some(m@),
            None => render_issue(*rule) is None,
        },
{
    if is_blank_str(rule.id.as_str()) {
        return Some(String::from_str("规则 ID 不能为空，无法渲染 gost.yaml"));
    }
    if is_blank_str(rule.listen_host.as_str()) {
        let mut m = String::from_str("规则 ");
        m.append(rule.id.as_str());
        m.append(" 的监听地址不能为空，无法渲染 gost.yaml");
        return Some(m);
    }
    if is_blank_str(rule.target_host.as_str()) {
        let mut m = String::from_str("规则 ");
        m.append(rule.id.as_str());
        m.append(" 的目标地址不能为空，无法渲染 gost.yaml");
        return Some(m);
    }
    None
}

fn append_service_block(yaml: &mut String, rule: &Rule)
    ensures
        final(yaml)@ == old(yaml)@ + service_block(*rule),
{
    let mut name = String::from_str("rule-");
    name.append(rule.id.as_str());
    let service_name = yaml_quote(name.as_str());
    let listen = format_socket_addr(rule.listen_host.as_str(), rule.listen_port);
    let listen_addr = yaml_quote(listen.as_str());
    let target = format_socket_addr(rule.target_host.as_str(), rule.target_port);
    let target_addr = yaml_quote(target.as_str());
    let protocol = rule.protocol.as_str();
    yaml.append("  - name: ");
    yaml.append(service_name.as_str());
    yaml.append("\n    addr: ");
    yaml.append(listen_addr.as_str());
    yaml.append("\n    handler:\n      type: ");
    yaml.append(protocol);
    yaml.append("\n    listener:\n      type: ");
    yaml.append(protocol);
    yaml.append("\n    forwarder:\n      nodes:\n        - name: 'target-0'\n          addr: ");
    yaml.append(target_addr.as_str());
    yaml.append("\n");
    assert(final(yaml)@ =~= old(yaml)@ + service_block(*rule));
}

/// Renders the rules as the services of a `gost.yaml`, in order; fails on
/// the first rule whose ID, listen host or target host is blank.
pub fn render_gost_yaml(rules: &[Rule]) -> (r: Result<String, GostRenderError>)
    ensures
        match r {
            Ok(y) => rendered_yaml(rules@) == Ok::<Seq<char>, Seq<char>>(y@),
            Err(e) => rendered_yaml(rules@) == Err::<Seq<char>, Seq<char>>(e.spec_message()),
        },
{
    let mut yaml = String::from_str("services:\n");
    let mut i: usize = 0;
    while i < rules.len()
        invariant
            i <= rules@.len(),
            first_render_issue(rules@.subrange(0, i as int)) is None,
            yaml@ == "services:\n"@ + service_blocks(rules@.subrange(0, i as int)),
        decreases rules@.len() - i,
    {
        let ghost pre = rules@.subrange(0, i as int);
        let ghost next = rules@.subrange(0, i + 1);
        assert(next.drop_last() =~= pre);
        assert(next.last() == rules@[i as int]);
        match render_issue_of(&rules[i]) {
            Some(m) => {
                proof {
                    lemma_first_issue_prefix(rules@, i + 1);
                }
                return Err(GostRenderError::InvalidRule(m));
            },
            None => {},
        }
        append_service_block(&mut yaml, &rules[i]);
        i = i + 1;
    }
    assert(rules@.subrange(0, rules@.len() as int) =~= rules@);
    Ok(yaml)
}

/// Once a prefix has an issue, every longer prefix reports that same issue.
proof fn lemma_first_issue_prefix(rules: Seq<Rule>, n: int)
    requires
        0 <= n <= rules.len(),
        first_render_issue(rules.subrange(0, n)) is Some,
    ensures
        first_render_issue(rules) == first_render_issue(rules.subrange(0, n)),
    decreases rules.len() - n,
{
    if n < rules.len() {
        let longer = rules.subrange(0, n + 1);
        assert(longer.drop_last() =~= rules.subrange(0, n));
        lemma_first_issue_prefix(rules, n + 1);
    } else {
        assert(rules.subrange(0, n) =~= rules);
    }
}

} // verus!
