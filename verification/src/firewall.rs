//! The Windows firewall rules that exposed listeners need: which to add and
//! which to remove, the PowerShell script that applies them, and the
//! messages that report them.

use vstd::prelude::*;
use vstd::string::*;
use crate::gost_renderer::double_single_quotes;
use crate::order::{str_eq, views};
use crate::paths::{join_path, joined_path, AppPaths};
use crate::rule::{IdSet, Protocol, Rule};
use crate::text::{append_decimal, chars_of, dec_str, push_char, trim, trim_chars};
use crate::validator::joined;

verus! {

/// Hosts that only the local machine can reach.
pub open spec fn is_loopback(host: Seq<char>) -> bool {
    let t = trim(host);
    t == "127.0.0.1"@ || t == "::1"@ || t == "localhost"@
}

/// A rule needs a firewall rule when it listens on a host others can reach.
pub open spec fn needs_rule(rule: Rule) -> bool {
    !is_loopback(rule.listen_host@)
}

/// The display name of the firewall rule of a forwarding rule.
pub open spec fn rule_name(rule: Rule) -> Seq<char> {
    "Porthole-"@ + rule.id@ + "-"@ + rule.protocol.spec_name() + "-"@ + dec_str(
        rule.listen_port as nat,
    )
}

/// A firewall rule to create: inbound, allow, on one protocol and local port.
#[derive(Debug, Clone, PartialEq, Eq)]
pub struct FirewallRuleSpec {
    pub display_name: String,
    pub protocol: Protocol,
    pub local_port: u16,
}

/// What a firewall rule to create is made of.
pub struct FirewallRuleView {
    pub display_name: Seq<char>,
    pub protocol: Protocol,
    pub local_port: u16,
}

impl View for FirewallRuleSpec {
    type V = FirewallRuleView;

    open spec fn view(&self) -> FirewallRuleView {
        FirewallRuleView {
            display_name: self.display_name@,
            protocol: self.protocol,
            local_port: self.local_port,
        }
    }
}

/// The firewall rules to create and the names of those to remove.
#[derive(Debug, Clone, PartialEq, Eq)]
pub struct FirewallSyncPlan {
    pub add_rules: Vec<FirewallRuleSpec>,
    pub remove_rule_names: Vec<String>,
}

pub open spec fn spec_views(v: Seq<FirewallRuleSpec>) -> Seq<FirewallRuleView> {
    v.map_values(|r: FirewallRuleSpec| r@)
}

/// The firewall rules that the active exposed rules need, in rule order.
pub open spec fn plan_adds(rules: Seq<Rule>, active: Seq<Seq<char>>) -> Seq<FirewallRuleView>
    decreases rules.len(),
{
    if rules.len() == 0 {
        Seq::empty()
    } else {
        let r = rules.last();
        plan_adds(rules.drop_last(), active) + if needs_rule(r) && active.contains(r.id@) {
            seq![
                FirewallRuleView {
                    display_name: rule_name(r),
                    protocol: r.protocol,
                    local_port: r.listen_port,
                },
            ]
        } else {
            Seq::empty()
        }
    }
}

/// The names of the firewall rules of the inactive exposed rules, in rule order.
pub open spec fn plan_removes(rules: Seq<Rule>, active: Seq<Seq<char>>) -> Seq<Seq<char>>
    decreases rules.len(),
{
    if rules.len() == 0 {
        Seq::empty()
    } else {
        let r = rules.last();
        plan_removes(rules.drop_last(), active) + if needs_rule(r) && !active.contains(r.id@) {
            seq![rule_name(r)]
        } else {
            Seq::empty()
        }
    }
}

/// The firewall rule that an exposed forwarding rule needs.
pub open spec fn rule_view(r: Rule) -> FirewallRuleView {
    FirewallRuleView { display_name: rule_name(r), protocol: r.protocol, local_port: r.listen_port }
}

/// The addition is that of an active rule whose host others can reach.
pub open spec fn added_for(rules: Seq<Rule>, active: Seq<Seq<char>>, a: FirewallRuleView) -> bool {
    exists|j: int|
        0 <= j < rules.len() && needs_rule(#[trigger] rules[j]) && active.contains(rules[j].id@) && a
            == rule_view(rules[j])
}

/// The name is that of the firewall rule of an inactive rule whose host others can reach.
pub open spec fn removed_for(rules: Seq<Rule>, active: Seq<Seq<char>>, n: Seq<char>) -> bool {
    exists|j: int|
        0 <= j < rules.len() && needs_rule(#[trigger] rules[j]) && !active.contains(rules[j].id@) && n
            == rule_name(rules[j])
}

/// Law: the plan opens the firewall exactly for the active rules that listen
/// on a host others can reach, each on its own protocol and listen port, and
/// removes the firewall rules of exactly the inactive ones; a loopback rule
/// is never touched.
pub proof fn law_plan_covers_exactly_the_exposed_rules(rules: Seq<Rule>, active: Seq<Seq<char>>)
    ensures
        forall|k: int| 0 <= k < plan_adds(rules, active).len() ==> added_for(rules, active, #[trigger] plan_adds(rules, active)[k]),
        forall|j: int| 0 <= j < rules.len() && needs_rule(#[trigger] rules[j]) && active.contains(rules[j].id@)
            ==> plan_adds(rules, active).contains(rule_view(rules[j])),
        forall|k: int| 0 <= k < plan_removes(rules, active).len() ==> removed_for(rules, active, #[trigger] plan_removes(rules, active)[k]),
        forall|j: int| 0 <= j < rules.len() && needs_rule(#[trigger] rules[j]) && !active.contains(rules[j].id@)
            ==> plan_removes(rules, active).contains(rule_name(rules[j])),
    decreases rules.len(),
{
    if rules.len() > 0 {
        let init = rules.drop_last();
        let r = rules.last();
        law_plan_covers_exactly_the_exposed_rules(init, active);
        let adds = plan_adds(rules, active);
        let removes = plan_removes(rules, active);
        let init_adds = plan_adds(init, active);
        let init_removes = plan_removes(init, active);
        assert forall|k: int| 0 <= k < adds.len() implies added_for(rules, active, #[trigger] adds[k]) by {
            if k < init_adds.len() {
                assert(adds[k] == init_adds[k]);
                assert(added_for(init, active, init_adds[k]));
                let j = choose|j: int| 0 <= j < init.len() && needs_rule(#[trigger] init[j])
                    && active.contains(init[j].id@) && init_adds[k] == rule_view(init[j]);
                assert(rules[j] == init[j]);
            } else {
                assert(rules[rules.len() - 1] == r);
            }
        }
        assert forall|j: int| 0 <= j < rules.len() && needs_rule(#[trigger] rules[j]) && active.contains(rules[j].id@)
            implies adds.contains(rule_view(rules[j])) by {
            if j < init.len() {
                assert(rules[j] == init[j]);
                assert(needs_rule(init[j]));
                let k = choose|k: int| 0 <= k < init_adds.len() && init_adds[k] == rule_view(init[j]);
                assert(adds[k] == init_adds[k]);
            } else {
                assert(adds[init_adds.len() as int] == rule_view(r));
            }
        }
        assert forall|k: int| 0 <= k < removes.len() implies removed_for(rules, active, #[trigger] removes[k]) by {
            if k < init_removes.len() {
                assert(removes[k] == init_removes[k]);
                assert(removed_for(init, active, init_removes[k]));
                let j = choose|j: int| 0 <= j < init.len() && needs_rule(#[trigger] init[j])
                    && !active.contains(init[j].id@) && init_removes[k] == rule_name(init[j]);
                assert(rules[j] == init[j]);
            } else {
                assert(rules[rules.len() - 1] == r);
            }
        }
        assert forall|j: int| 0 <= j < rules.len() && needs_rule(#[trigger] rules[j]) && !active.contains(rules[j].id@)
            implies removes.contains(rule_name(rules[j])) by {
            if j < init.len() {
                assert(rules[j] == init[j]);
                assert(needs_rule(init[j]));
                let k = choose|k: int| 0 <= k < init_removes.len() && init_removes[k] == rule_name(init[j]);
                assert(removes[k] == init_removes[k]);
            } else {
                assert(removes[init_removes.len() as int] == rule_name(r));
            }
        }
    }
}

/// Law: a pruned plan changes only what needs a change: it adds no rule
/// that exists and removes none that does not, and keeps every other step.
pub proof fn law_pruned_plan_keeps_only_real_changes(
    adds: Seq<FirewallRuleView>,
    removes: Seq<Seq<char>>,
    existing: Seq<Seq<char>>,
)
    ensures
        forall|a: FirewallRuleView| #[trigger] pruned_adds(adds, existing).contains(a) <==> (adds.contains(a)
            && !existing.contains(a.display_name)),
        forall|n: Seq<char>| #[trigger] pruned_removes(removes, existing).contains(n) <==> (removes.contains(n)
            && existing.contains(n)),
{
    let fa = |a: FirewallRuleView| !existing.contains(a.display_name);
    let fr = |n: Seq<char>| existing.contains(n);
    assert forall|a: FirewallRuleView| #[trigger] pruned_adds(adds, existing).contains(a) <==> (adds.contains(a)
        && !existing.contains(a.display_name)) by {
        adds.filter_lemma(fa);
        assert(pruned_adds(adds, existing) == adds.filter(fa));
        if adds.filter(fa).contains(a) {
            adds.lemma_filter_contains_rev(fa, a);
            let i = choose|i: int| 0 <= i < adds.filter(fa).len() && adds.filter(fa)[i] == a;
            assert(fa(adds.filter(fa)[i]));
        }
        if adds.contains(a) && fa(a) {
            let i = choose|i: int| 0 <= i < adds.len() && adds[i] == a;
            assert(adds.filter(fa).contains(adds[i]));
        }
    }
    assert forall|n: Seq<char>| #[trigger] pruned_removes(removes, existing).contains(n) <==> (removes.contains(n)
        && existing.contains(n)) by {
        removes.filter_lemma(fr);
        assert(pruned_removes(removes, existing) == removes.filter(fr));
        if removes.filter(fr).contains(n) {
            removes.lemma_filter_contains_rev(fr, n);
            let i = choose|i: int| 0 <= i < removes.filter(fr).len() && removes.filter(fr)[i] == n;
            assert(fr(removes.filter(fr)[i]));
        }
        if removes.contains(n) && fr(n) {
            let i = choose|i: int| 0 <= i < removes.len() && removes[i] == n;
            assert(removes.filter(fr).contains(removes[i]));
        }
    }
}

/// Law: once the firewall holds every rule the plan adds and none it
/// removes, the next sync prunes the plan to nothing, so no script runs.
pub proof fn law_sync_is_idle_once_applied(rules: Seq<Rule>, active: Seq<Seq<char>>, existing: Seq<Seq<char>>)
    requires
        forall|k: int| 0 <= k < plan_adds(rules, active).len() ==> existing.contains(
            #[trigger] plan_adds(rules, active)[k].display_name,
        ),
        forall|k: int| 0 <= k < plan_removes(rules, active).len() ==> !existing.contains(
            #[trigger] plan_removes(rules, active)[k],
        ),
    ensures
        pruned_adds(plan_adds(rules, active), existing).len() == 0,
        pruned_removes(plan_removes(rules, active), existing).len() == 0,
{
    let adds = plan_adds(rules, active);
    let removes = plan_removes(rules, active);
    law_pruned_plan_keeps_only_real_changes(adds, removes, existing);
    let pa = pruned_adds(adds, existing);
    let pr = pruned_removes(removes, existing);
    if pa.len() > 0 {
        assert(pa.contains(pa[0]));
        let k = choose|k: int| 0 <= k < adds.len() && adds[k] == pa[0];
        assert(existing.contains(adds[k].display_name));
    }
    if pr.len() > 0 {
        assert(pr.contains(pr[0]));
        let k = choose|k: int| 0 <= k < removes.len() && removes[k] == pr[0];
        assert(!existing.contains(removes[k]));
    }
}

/// `protocol port` for each rule to add.
pub open spec fn add_summaries(adds: Seq<FirewallRuleView>) -> Seq<Seq<char>> {
    adds.map_values(|a: FirewallRuleView| a.protocol.spec_upper_name() + " "@ + dec_str(a.local_port as nat))
}

/// The messages that report an applied plan.
pub open spec fn plan_messages(adds: Seq<FirewallRuleView>, removes: Seq<Seq<char>>) -> Seq<Seq<char>> {
    (if adds.len() > 0 {
        seq!["已同步 Windows 防火墙放行规则："@ + joined(add_summaries(adds), ", "@)]
    } else {
        Seq::empty()
    }) + (if removes.len() > 0 {
        seq!["已清理 "@ + dec_str(removes.len()) + " 条 Windows 防火墙规则"@]
    } else {
        Seq::empty()
    })
}

/// The command that removes the firewall rules of a display name, if there are any.
pub open spec fn removal_line(name: Seq<char>) -> Seq<char> {
    "Get-NetFirewallRule -DisplayName '"@ + double_single_quotes(name)
        + "' -ErrorAction SilentlyContinue | Remove-NetFirewallRule -ErrorAction SilentlyContinue | Out-Null\n"@
}

/// The commands that replace the firewall rule of a display name.
pub open spec fn addition_lines(a: FirewallRuleView) -> Seq<char> {
    removal_line(a.display_name) + "New-NetFirewallRule -DisplayName '"@ + double_single_quotes(
        a.display_name,
    ) + "' -Group 'Porthole' -Direction Inbound -Action Allow -Protocol "@
        + a.protocol.spec_upper_name() + " -LocalPort "@ + dec_str(a.local_port as nat)
        + " -Profile Any | Out-Null\n"@
}

pub open spec fn removal_lines(names: Seq<Seq<char>>) -> Seq<char>
    decreases names.len(),
{
    if names.len() == 0 {
        Seq::empty()
    } else {
        removal_lines(names.drop_last()) + removal_line(names.last())
    }
}

pub open spec fn all_addition_lines(adds: Seq<FirewallRuleView>) -> Seq<char>
    decreases adds.len(),
{
    if adds.len() == 0 {
        Seq::empty()
    } else {
        all_addition_lines(adds.drop_last()) + addition_lines(adds.last())
    }
}

/// The PowerShell script that applies a plan: removals first, then additions.
pub open spec fn plan_script(adds: Seq<FirewallRuleView>, removes: Seq<Seq<char>>) -> Seq<char> {
    "$ErrorActionPreference = 'Stop'\nSet-StrictMode -Version Latest\n"@ + removal_lines(removes)
        + all_addition_lines(adds)
}

proof fn lemma_addition_lines_concat(a: Seq<FirewallRuleView>, b: Seq<FirewallRuleView>)
    ensures
        all_addition_lines(a + b) == all_addition_lines(a) + all_addition_lines(b),
    decreases b.len(),
{
    if b.len() == 0 {
        assert(a + b =~= a);
        assert(all_addition_lines(a) + all_addition_lines(b) =~= all_addition_lines(a));
    } else {
        lemma_addition_lines_concat(a, b.drop_last());
        assert((a + b).drop_last() =~= a + b.drop_last());
        assert((a + b).last() == b.last());
        assert(all_addition_lines(a) + all_addition_lines(b) =~= all_addition_lines(a)
            + all_addition_lines(b.drop_last()) + addition_lines(b.last()));
    }
}

proof fn lemma_removal_lines_concat(a: Seq<Seq<char>>, b: Seq<Seq<char>>)
    ensures
        removal_lines(a + b) == removal_lines(a) + removal_lines(b),
    decreases b.len(),
{
    if b.len() == 0 {
        assert(a + b =~= a);
        assert(removal_lines(a) + removal_lines(b) =~= removal_lines(a));
    } else {
        lemma_removal_lines_concat(a, b.drop_last());
        assert((a + b).drop_last() =~= a + b.drop_last());
        assert((a + b).last() == b.last());
        assert(removal_lines(a) + removal_lines(b) =~= removal_lines(a) + removal_lines(b.drop_last())
            + removal_line(b.last()));
    }
}

/// Law: the script of a plan runs, after its header, the removal of every
/// rule to remove and then the commands of every rule to add, each at its own
/// place in the order of the plan: nothing is left out, repeated or moved.
pub proof fn law_script_applies_every_step(adds: Seq<FirewallRuleView>, removes: Seq<Seq<char>>)
    ensures
        forall|k: int| 0 <= k < adds.len() ==> all_addition_lines(adds) == all_addition_lines(adds.take(k))
            + addition_lines(#[trigger] adds[k]) + all_addition_lines(adds.skip(k + 1)),
        forall|k: int| 0 <= k < removes.len() ==> removal_lines(removes) == removal_lines(removes.take(k))
            + removal_line(#[trigger] removes[k]) + removal_lines(removes.skip(k + 1)),
        forall|more: Seq<FirewallRuleView>| #[trigger] all_addition_lines(adds + more) == all_addition_lines(adds)
            + all_addition_lines(more),
        forall|more: Seq<Seq<char>>| #[trigger] removal_lines(removes + more) == removal_lines(removes)
            + removal_lines(more),
        plan_script(adds, removes) == "$ErrorActionPreference = 'Stop'\nSet-StrictMode -Version Latest\n"@
            + removal_lines(removes) + all_addition_lines(adds),
{
    assert forall|k: int| 0 <= k < adds.len() implies all_addition_lines(adds) == all_addition_lines(adds.take(k))
        + addition_lines(#[trigger] adds[k]) + all_addition_lines(adds.skip(k + 1)) by {
        let x = seq![adds[k]];
        assert(adds =~= adds.take(k) + x + adds.skip(k + 1));
        lemma_addition_lines_concat(adds.take(k) + x, adds.skip(k + 1));
        lemma_addition_lines_concat(adds.take(k), x);
        assert(x.drop_last() =~= Seq::<FirewallRuleView>::empty());
        assert(x.last() == adds[k]);
        assert(all_addition_lines(Seq::<FirewallRuleView>::empty()) =~= Seq::<char>::empty());
        assert(all_addition_lines(x) == all_addition_lines(x.drop_last()) + addition_lines(x.last()));
        assert(all_addition_lines(x) =~= addition_lines(adds[k]));
    }
    assert forall|k: int| 0 <= k < removes.len() implies removal_lines(removes) == removal_lines(removes.take(k))
        + removal_line(#[trigger] removes[k]) + removal_lines(removes.skip(k + 1)) by {
        let x = seq![removes[k]];
        assert(removes =~= removes.take(k) + x + removes.skip(k + 1));
        lemma_removal_lines_concat(removes.take(k) + x, removes.skip(k + 1));
        lemma_removal_lines_concat(removes.take(k), x);
        assert(x.drop_last() =~= Seq::<Seq<char>>::empty());
        assert(x.last() == removes[k]);
        assert(removal_lines(Seq::<Seq<char>>::empty()) =~= Seq::<char>::empty());
        assert(removal_lines(x) == removal_lines(x.drop_last()) + removal_line(x.last()));
        assert(removal_lines(x) =~= removal_line(removes[k]));
    }
    assert forall|more: Seq<FirewallRuleView>| #[trigger] all_addition_lines(adds + more) == all_addition_lines(adds)
        + all_addition_lines(more) by {
        lemma_addition_lines_concat(adds, more);
    }
    assert forall|more: Seq<Seq<char>>| #[trigger] removal_lines(removes + more) == removal_lines(removes)
        + removal_lines(more) by {
        lemma_removal_lines_concat(removes, more);
    }
}

impl FirewallSyncPlan {
    pub open spec fn spec_adds(&self) -> Seq<FirewallRuleView> {
        spec_views(self.add_rules@)
    }

    pub open spec fn spec_removes(&self) -> Seq<Seq<char>> {
        views(self.remove_rule_names@)
    }

    pub fn is_empty(&self) -> (r: bool)
        ensures
            r == (self.add_rules@.len() == 0 && self.remove_rule_names@.len() == 0),
    {
        self.add_rules.len() == 0 && self.remove_rule_names.len() == 0
    }

    /// What the plan did, for the log: the rules opened and how many were removed.
    pub fn summary_messages(&self) -> (r: Vec<String>)
        ensures
            views(r@) == plan_messages(self.spec_adds(), self.spec_removes()),
    {
        let mut messages: Vec<String> = Vec::new();
        if self.add_rules.len() > 0 {
            let mut m = String::from_str("已同步 Windows 防火墙放行规则：");
            let ghost start = m@;
            let ghost sums = add_summaries(self.spec_adds());
            let mut i: usize = 0;
            while i < self.add_rules.len()
                invariant
                    i <= self.add_rules@.len(),
                    sums == add_summaries(self.spec_adds()),
                    sums.len() == self.add_rules@.len(),
                    m@ == start + joined(sums.subrange(0, i as int), ", "@),
                decreases self.add_rules@.len() - i,
            {
                let ghost pre = sums.subrange(0, i as int);
                assert(sums.subrange(0, i + 1).drop_last() =~= pre);
                let a = &self.add_rules[i];
                if i > 0 {
                    m.append(", ");
                }
                m.append(a.protocol.upper_name());
                m.append(" ");
                append_decimal(&mut m, a.local_port as u64);
                assert(sums[i as int] == a.protocol.spec_upper_name() + " "@ + dec_str(a.local_port as nat));
                assert(m@ =~= start + joined(sums.subrange(0, i + 1), ", "@));
                i = i + 1;
            }
            assert(sums.subrange(0, sums.len() as int) =~= sums);
            messages.push(m);
        }
        if self.remove_rule_names.len() > 0 {
            let mut m = String::from_str("已清理 ");
            append_decimal(&mut m, self.remove_rule_names.len() as u64);
            m.append(" 条 Windows 防火墙规则");
            messages.push(m);
        }
        assert(views(messages@) =~= plan_messages(self.spec_adds(), self.spec_removes()));
        messages
    }

    /// The PowerShell script that applies the plan.
    pub fn to_powershell_script(&self) -> (r: String)
        ensures
            r@ == plan_script(self.spec_adds(), self.spec_removes()),
    {
        let mut script = String::from_str(
            "$ErrorActionPreference = 'Stop'\nSet-StrictMode -Version Latest\n",
        );
        let ghost head = script@;
        let mut i: usize = 0;
        while i < self.remove_rule_names.len()
            invariant
                i <= self.remove_rule_names@.len(),
                script@ == head + removal_lines(self.spec_removes().subrange(0, i as int)),
            decreases self.remove_rule_names@.len() - i,
        {
            let ghost pre = self.spec_removes().subrange(0, i as int);
            assert(self.spec_removes().subrange(0, i + 1).drop_last() =~= pre);
            append_removal_line(&mut script, self.remove_rule_names[i].as_str());
            i = i + 1;
        }
        assert(self.spec_removes().subrange(0, self.remove_rule_names@.len() as int)
            =~= self.spec_removes());
        let ghost mid = script@;
        let mut j: usize = 0;
        while j < self.add_rules.len()
            invariant
                j <= self.add_rules@.len(),
                script@ == mid + all_addition_lines(self.spec_adds().subrange(0, j as int)),
            decreases self.add_rules@.len() - j,
        {
            let ghost pre = self.spec_adds().subrange(0, j as int);
            assert(self.spec_adds().subrange(0, j + 1).drop_last() =~= pre);
            let a = &self.add_rules[j];
            append_removal_line(&mut script, a.display_name.as_str());
            let escaped = escape_powershell_single_quoted(a.display_name.as_str());
            script.append("New-NetFirewallRule -DisplayName '");
            script.append(escaped.as_str());
            script.append("' -Group 'Porthole' -Direction Inbound -Action Allow -Protocol ");
            script.append(a.protocol.upper_name());
            script.append(" -LocalPort ");
            append_decimal(&mut script, a.local_port as u64);
            script.append(" -Profile Any | Out-Null\n");
            assert(script@ =~= mid + all_addition_lines(self.spec_adds().subrange(0, j + 1)));
            j = j + 1;
        }
        assert(self.spec_adds().subrange(0, self.add_rules@.len() as int) =~= self.spec_adds());
        script
    }
}

/// Doubles every `'`, for a PowerShell single-quoted string.
pub fn escape_powershell_single_quoted(value: &str) -> (r: String)
    ensures
        r@ == double_single_quotes(value@),
{
    let cs = chars_of(value);
    let mut r = String::new();
    let mut i: usize = 0;
    while i < cs.len()
        invariant
            cs@ == value@,
            i <= cs@.len(),
            r@ == double_single_quotes(value@.subrange(0, i as int)),
        decreases cs@.len() - i,
    {
        let ghost pre = value@.subrange(0, i as int);
        assert(value@.subrange(0, i + 1).drop_last() =~= pre);
        if cs[i] == '\'' {
            r.append("''");
        } else {
            push_char(&mut r, cs[i]);
        }
        i = i + 1;
    }
    assert(value@.subrange(0, value@.len() as int) =~= value@);
    r
}

fn append_removal_line(script: &mut String, name: &str)
    ensures
        final(script)@ == old(script)@ + removal_line(name@),
{
    let escaped = escape_powershell_single_quoted(name);
    script.append("Get-NetFirewallRule -DisplayName '");
    script.append(escaped.as_str());
    script.append(
        "' -ErrorAction SilentlyContinue | Remove-NetFirewallRule -ErrorAction SilentlyContinue | Out-Null\n",
    );
}

/// Whether the host is `127.0.0.1`, `::1` or `localhost`, around whitespace.
pub fn is_loopback_host(host: &str) -> (r: bool)
    ensures
        r == is_loopback(host@),
{
    let cs = chars_of(host);
    let t = trim_chars(cs.as_slice());
    let ts = crate::text::string_from_chars(t.as_slice());
    str_eq(ts.as_str(), "127.0.0.1") || str_eq(ts.as_str(), "::1") || str_eq(
        ts.as_str(),
        "localhost",
    )
}

/// Whether the rule listens where other machines can reach it.
pub fn needs_firewall_rule(rule: &Rule) -> (r: bool)
    ensures
        r == needs_rule(*rule),
{
    !is_loopback_host(rule.listen_host.as_str())
}

/// `Porthole-<id>-<protocol>-<port>`.
pub fn firewall_rule_name(rule: &Rule) -> (r: String)
    ensures
        r@ == rule_name(*rule),
{
    let mut r = String::from_str("Porthole-");
    r.append(rule.id.as_str());
    r.append("-");
    r.append(rule.protocol.as_str());
    r.append("-");
    append_decimal(&mut r, rule.listen_port as u64);
    r
}

/// Opens the exposed rules that are active and closes those that are not.
pub fn build_sync_plan(rules: &[Rule], active_rule_ids: &IdSet) -> (r: FirewallSyncPlan)
    ensures
        r.spec_adds() == plan_adds(rules@, active_rule_ids@),
        r.spec_removes() == plan_removes(rules@, active_rule_ids@),
{
    let mut add_rules: Vec<FirewallRuleSpec> = Vec::new();
    let mut remove_rule_names: Vec<String> = Vec::new();
    let mut i: usize = 0;
    while i < rules.len()
        invariant
            i <= rules@.len(),
            spec_views(add_rules@) == plan_adds(rules@.subrange(0, i as int), active_rule_ids@),
            views(remove_rule_names@) == plan_removes(
                rules@.subrange(0, i as int),
                active_rule_ids@,
            ),
        decreases rules@.len() - i,
    {
        let ghost pre = rules@.subrange(0, i as int);
        let ghost next = rules@.subrange(0, i + 1);
        assert(next.drop_last() =~= pre);
        assert(next.last() == rules@[i as int]);
        let rule = &rules[i];
        if needs_firewall_rule(rule) {
            if active_rule_ids.contains(rule.id.as_str()) {
                add_rules.push(
                    FirewallRuleSpec {
                        display_name: firewall_rule_name(rule),
                        protocol: rule.protocol,
                        local_port: rule.listen_port,
                    },
                );
            } else {
                remove_rule_names.push(firewall_rule_name(rule));
            }
        }
        assert(spec_views(add_rules@) =~= plan_adds(next, active_rule_ids@));
        assert(views(remove_rule_names@) =~= plan_removes(next, active_rule_ids@));
        i = i + 1;
    }
    assert(rules@.subrange(0, rules@.len() as int) =~= rules@);
    FirewallSyncPlan { add_rules, remove_rule_names }
}

/// The rules to add that the firewall lacks, kept in order.
pub open spec fn pruned_adds(adds: Seq<FirewallRuleView>, existing: Seq<Seq<char>>) -> Seq<
    FirewallRuleView,
> {
    adds.filter(|a: FirewallRuleView| !existing.contains(a.display_name))
}

/// The rules to remove that the firewall has, kept in order.
pub open spec fn pruned_removes(removes: Seq<Seq<char>>, existing: Seq<Seq<char>>) -> Seq<
    Seq<char>,
> {
    removes.filter(|n: Seq<char>| existing.contains(n))
}

/// Drops from a plan what would change nothing, given the display names of
/// the firewall rules that exist: additions of rules that exist and removals
/// of rules that do not.
pub fn prune_sync_plan(plan: FirewallSyncPlan, existing_rule_names: &IdSet) -> (r: FirewallSyncPlan)
    ensures
        r.spec_adds() == pruned_adds(plan.spec_adds(), existing_rule_names@),
        r.spec_removes() == pruned_removes(plan.spec_removes(), existing_rule_names@),
{
    let ghost adds = plan.spec_adds();
    let ghost removes = plan.spec_removes();
    let ghost ex = existing_rule_names@;
    let mut add_rules: Vec<FirewallRuleSpec> = Vec::new();
    let mut i: usize = 0;
    while i < plan.add_rules.len()
        invariant
            i <= plan.add_rules@.len(),
            adds == spec_views(plan.add_rules@),
            ex == existing_rule_names@,
            spec_views(add_rules@) == pruned_adds(adds.subrange(0, i as int), ex),
        decreases plan.add_rules@.len() - i,
    {
        let ghost pre = adds.subrange(0, i as int);
        assert(adds.subrange(0, i + 1).drop_last() =~= pre);
        let a = &plan.add_rules[i];
        if !existing_rule_names.contains(a.display_name.as_str()) {
            add_rules.push(a.clone_spec());
        }
        proof {
            reveal(Seq::filter);
            assert(adds.subrange(0, i + 1) =~= pre.push(adds[i as int]));
            assert(pre.push(adds[i as int]).drop_last() =~= pre);
        }
        assert(spec_views(add_rules@) =~= pruned_adds(adds.subrange(0, i + 1), ex));
        i = i + 1;
    }
    assert(adds.subrange(0, plan.add_rules@.len() as int) =~= adds);
    let mut remove_rule_names: Vec<String> = Vec::new();
    let mut j: usize = 0;
    while j < plan.remove_rule_names.len()
        invariant
            j <= plan.remove_rule_names@.len(),
            removes == views(plan.remove_rule_names@),
            ex == existing_rule_names@,
            views(remove_rule_names@) == pruned_removes(removes.subrange(0, j as int), ex),
        decreases plan.remove_rule_names@.len() - j,
    {
        let ghost pre = removes.subrange(0, j as int);
        let name = &plan.remove_rule_names[j];
        if existing_rule_names.contains(name.as_str()) {
            remove_rule_names.push(name.clone());
        }
        proof {
            reveal(Seq::filter);
            assert(removes.subrange(0, j + 1) =~= pre.push(removes[j as int]));
            assert(pre.push(removes[j as int]).drop_last() =~= pre);
        }
        assert(views(remove_rule_names@) =~= pruned_removes(removes.subrange(0, j + 1), ex));
        j = j + 1;
    }
    assert(removes.subrange(0, plan.remove_rule_names@.len() as int) =~= removes);
    FirewallSyncPlan { add_rules, remove_rule_names }
}

impl FirewallRuleSpec {
    /// A copy of the rule.
    pub fn clone_spec(&self) -> (r: FirewallRuleSpec)
        ensures
            r@ == self@,
    {
        FirewallRuleSpec {
            display_name: self.display_name.clone(),
            protocol: self.protocol,
            local_port: self.local_port,
        }
    }
}

/// A script to run and what to report once it has run.
#[derive(Debug, PartialEq, Eq)]
pub struct FirewallScript {
    pub script_path: String,
    pub script: String,
    pub messages: Vec<String>,
}

/// Why a firewall change failed.
#[derive(Debug, PartialEq, Eq)]
pub enum FirewallError {
    /// A message and the I/O error's own text.
    Io(String, String),
    /// The firewall command reported a failure.
    Command(String),
}

/// The I/O steps of a firewall change.
#[derive(Debug, Clone, Copy, PartialEq, Eq, Structural)]
pub enum FirewallStage {
    CreateDataDir,
    WriteScript,
    CheckElevation,
    RunCommand,
}

impl FirewallStage {
    /// What failed, as the error message says it.
    pub open spec fn spec_message(self) -> Seq<char> {
        match self {
            FirewallStage::CreateDataDir => "创建应用数据目录失败"@,
            FirewallStage::WriteScript => "写入 Windows 防火墙脚本失败"@,
            FirewallStage::CheckElevation => "检测管理员权限失败"@,
            FirewallStage::RunCommand => "执行 Windows 防火墙命令失败"@,
        }
    }
}

impl FirewallError {
    pub open spec fn spec_message(&self) -> Seq<char> {
        match self {
            FirewallError::Io(m, e) => m@ + ": "@ + e@,
            FirewallError::Command(m) => m@,
        }
    }

    /// The text that the error displays.
    pub fn message(&self) -> (r: String)
        ensures
            r@ == self.spec_message(),
    {
        match self {
            FirewallError::Io(m, e) => {
                let mut r = m.clone();
                r.append(": ");
                r.append(e.as_str());
                r
            },
            FirewallError::Command(m) => m.clone(),
        }
    }

    /// The error of an I/O step that failed with `err`.
    pub fn io_at(stage: FirewallStage, err: String) -> (r: FirewallError)
        ensures
            r matches FirewallError::Io(m, x) && m@ == stage.spec_message() && x@ == err@,
    {
        let m = match stage {
            FirewallStage::CreateDataDir => String::from_str("创建应用数据目录失败"),
            FirewallStage::WriteScript => String::from_str("写入 Windows 防火墙脚本失败"),
            FirewallStage::CheckElevation => String::from_str("检测管理员权限失败"),
            FirewallStage::RunCommand => String::from_str("执行 Windows 防火墙命令失败"),
        };
        FirewallError::Io(m, err)
    }

    /// The error of a firewall command that exited with `status`.
    pub fn command_failed(status: &str) -> (r: FirewallError)
        ensures
            r matches FirewallError::Command(m) && m@ == "同步 Windows 防火墙规则失败，退出码: "@ + status@,
    {
        let mut m = String::from_str("同步 Windows 防火墙规则失败，退出码: ");
        m.append(status);
        FirewallError::Command(m)
    }
}

impl FirewallScript {
    /// Whether the script must run elevated: when the application is not.
    pub fn requires_elevation(elevated: bool) -> (r: bool)
        ensures
            r == !elevated,
    {
        !elevated
    }

    /// What the change reports once the script ran: its messages, or the error.
    pub fn outcome(self, ran: Result<(), FirewallError>) -> (r: Result<Vec<String>, FirewallError>)
        ensures
            match ran {
                Ok(()) => r matches Ok(m) && views(m@) == views(self.messages@),
                Err(e) => r == Err::<Vec<String>, FirewallError>(e),
            },
    {
        match ran {
            Ok(()) => Ok(self.messages),
            Err(e) => Err(e),
        }
    }
}

/// The PowerShell command of an elevated run: a second PowerShell started
/// with `RunAs` on the script, whose exit code is passed on.
pub open spec fn elevated_command(script_path: Seq<char>) -> Seq<char> {
    "$proc = Start-Process -FilePath 'powershell.exe' -Verb RunAs -WindowStyle Hidden -Wait -PassThru -ArgumentList @('-NoProfile','-NonInteractive','-ExecutionPolicy','Bypass','-File','"@
        + double_single_quotes(script_path) + "'); exit $proc.ExitCode"@
}

/// The arguments of `powershell.exe` that run the script: through an
/// elevated second PowerShell when elevation is required, directly otherwise.
pub open spec fn runner_arguments(script_path: Seq<char>, requires_elevation: bool) -> Seq<Seq<char>> {
    seq!["-NoProfile"@, "-NonInteractive"@, "-ExecutionPolicy"@, "Bypass"@] + if requires_elevation {
        seq!["-Command"@, elevated_command(script_path)]
    } else {
        seq!["-File"@, script_path]
    }
}

/// The arguments of `powershell.exe` that run the script at `script_path`.
pub fn runner_args(script_path: &str, requires_elevation: bool) -> (r: Vec<String>)
    ensures
        views(r@) == runner_arguments(script_path@, requires_elevation),
{
    let mut r: Vec<String> = Vec::new();
    r.push(String::from_str("-NoProfile"));
    r.push(String::from_str("-NonInteractive"));
    r.push(String::from_str("-ExecutionPolicy"));
    r.push(String::from_str("Bypass"));
    if requires_elevation {
        let mut command = String::from_str(
            "$proc = Start-Process -FilePath 'powershell.exe' -Verb RunAs -WindowStyle Hidden -Wait -PassThru -ArgumentList @('-NoProfile','-NonInteractive','-ExecutionPolicy','Bypass','-File','",
        );
        let escaped = escape_powershell_single_quoted(script_path);
        command.append(escaped.as_str());
        command.append("'); exit $proc.ExitCode");
        r.push(String::from_str("-Command"));
        r.push(command);
    } else {
        r.push(String::from_str("-File"));
        r.push(String::from_str(script_path));
    }
    assert(views(r@) =~= runner_arguments(script_path@, requires_elevation));
    r
}

/// Keeps the firewall in step with the rules; the script it prepares is
/// written to the data directory and run by the application.
pub struct FirewallManager {
    paths: AppPaths,
}

/// Where the firewall script is written.
pub open spec fn script_path(paths: AppPaths) -> Seq<char> {
    joined_path(paths.spec_data_dir(), "firewall-sync.ps1"@, paths.spec_separator())
}

impl FirewallManager {
    pub closed spec fn spec_paths(&self) -> AppPaths {
        self.paths
    }

    pub fn new(paths: AppPaths) -> (r: FirewallManager)
        ensures
            r.spec_paths() == paths,
    {
        FirewallManager { paths }
    }

    /// The script of a plan, or nothing when the plan changes nothing.
    pub fn prepare(&self, plan: FirewallSyncPlan) -> (r: Option<FirewallScript>)
        ensures
            (plan.add_rules@.len() == 0 && plan.remove_rule_names@.len() == 0) <==> r is None,
            r matches Some(s) ==> s.script_path@ == script_path(self.spec_paths()) && s.script@
                == plan_script(plan.spec_adds(), plan.spec_removes()) && views(s.messages@)
                == plan_messages(plan.spec_adds(), plan.spec_removes()),
    {
        if plan.is_empty() {
            return None;
        }
        Some(
            FirewallScript {
                script_path: join_path(self.paths.data_dir(), "firewall-sync.ps1", self.paths.separator()),
                script: plan.to_powershell_script(),
                messages: plan.summary_messages(),
            },
        )
    }

    /// The script that brings the firewall in step with the active rules,
    /// given the display names of the `Porthole-*` firewall rules that exist:
    /// only additions of missing rules and removals of existing ones are
    /// kept, and there is no script when nothing would change.
    pub fn sync_rules(&self, rules: &[Rule], active_rule_ids: &IdSet, existing_rule_names: &IdSet) -> (r: Option<FirewallScript>)
        ensures
            ({
                let adds = pruned_adds(plan_adds(rules@, active_rule_ids@), existing_rule_names@);
                let removes = pruned_removes(plan_removes(rules@, active_rule_ids@), existing_rule_names@);
                &&& (adds.len() == 0 && removes.len() == 0) <==> r is None
                &&& r matches Some(s) ==> s.script_path@ == script_path(self.spec_paths()) && s.script@
                    == plan_script(adds, removes) && views(s.messages@) == plan_messages(adds, removes)
            }),
    {
        let plan = build_sync_plan(rules, active_rule_ids);
        let pruned = prune_sync_plan(plan, existing_rule_names);
        self.prepare(pruned)
    }

    /// The script that removes the firewall rule of one rule, if it has one.
    pub fn remove_rule(&self, rule: &Rule) -> (r: Option<FirewallScript>)
        ensures
            !needs_rule(*rule) <==> r is None,
            r matches Some(s) ==> s.script_path@ == script_path(self.spec_paths()) && s.script@
                == plan_script(Seq::empty(), seq![rule_name(*rule)]) && views(s.messages@)
                == plan_messages(Seq::empty(), seq![rule_name(*rule)]),
    {
        if !needs_firewall_rule(rule) {
            return None;
        }
        let mut names: Vec<String> = Vec::new();
        names.push(firewall_rule_name(rule));
        let plan = FirewallSyncPlan { add_rules: Vec::new(), remove_rule_names: names };
        assert(plan.spec_adds() =~= Seq::<FirewallRuleView>::empty());
        assert(plan.spec_removes() =~= seq![rule_name(*rule)]);
        self.prepare(plan)
    }
}

} // verus!
